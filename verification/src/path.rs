//! File paths as text: components, file names, extensions, joining.
use vstd::prelude::*;
use vstd::string::*;
use crate::seqs;
use crate::text;
use crate::text::{chars_of, join, owned, piece, same_text};

verus! {

/// The stretches of a path between slashes, empty ones included.
pub open spec fn pieces(s: Seq<char>) -> Seq<Seq<char>>
    decreases s.len(),
{
    if s.len() == 0 {
        seq![Seq::empty()]
    } else if s.last() == '/' {
        pieces(s.drop_last()).push(Seq::empty())
    } else {
        let front = pieces(s.drop_last());
        front.update(front.len() - 1, front.last().push(s.last()))
    }
}

/// A stretch that names something: neither empty nor ".".
pub open spec fn is_named(part: Seq<char>) -> bool {
    part.len() > 0 && part != "."@
}

/// The stretches of a path that name something.
pub open spec fn named_parts(s: Seq<char>) -> Seq<Seq<char>> {
    pieces(s).filter(|p: Seq<char>| is_named(p))
}

/// The components of a path: the root or a leading ".", then every named part.
pub open spec fn components(s: Seq<char>) -> Seq<Seq<char>> {
    let lead: Seq<Seq<char>> = if s.len() > 0 && s[0] == '/' {
        seq!["/"@]
    } else if pieces(s)[0] == "."@ {
        seq!["."@]
    } else {
        Seq::empty()
    };
    lead + named_parts(s)
}

/// `base` is the path itself or a folder above it.
pub open spec fn lies_under(path: Seq<char>, base: Seq<char>) -> bool {
    components(base).is_prefix_of(components(path))
}

/// The last component, unless the path names none or ends in "..".
pub open spec fn name_of(path: Seq<char>) -> Option<Seq<char>> {
    let parts = named_parts(path);
    if parts.len() == 0 || parts.last() == ".."@ {
        None
    } else {
        Some(parts.last())
    }
}

/// The position of the last dot, or -1.
pub open spec fn last_dot(s: Seq<char>) -> int
    decreases s.len(),
{
    if s.len() == 0 {
        -1
    } else if s.last() == '.' {
        s.len() - 1
    } else {
        last_dot(s.drop_last())
    }
}

/// The file name up to its last dot; a dot at the front does not count.
pub open spec fn stem_of(path: Seq<char>) -> Option<Seq<char>> {
    match name_of(path) {
        None => None,
        Some(name) => if last_dot(name) <= 0 {
            Some(name)
        } else {
            Some(name.take(last_dot(name)))
        },
    }
}

/// The file name after its last dot; a dot at the front does not count.
pub open spec fn extension_of(path: Seq<char>) -> Option<Seq<char>> {
    match name_of(path) {
        None => None,
        Some(name) => if last_dot(name) <= 0 {
            None
        } else {
            Some(name.skip(last_dot(name) + 1))
        },
    }
}

/// `name` below `base`; an absolute `name` stands by itself.
pub open spec fn joined_path(base: Seq<char>, name: Seq<char>) -> Seq<char> {
    if base.len() == 0 || (name.len() > 0 && name[0] == '/') {
        name
    } else if base.last() == '/' {
        base + name
    } else {
        base + "/"@ + name
    }
}

/// The views of an optional text.
pub open spec fn opt_view(t: Option<String>) -> Option<Seq<char>> {
    match t {
        None => None,
        Some(s) => Some(s@),
    }
}

/// The stretches of a path between slashes.
fn split_path(path: &str) -> (r: Vec<String>)
    ensures
        text::views(r@) == pieces(path@),
        r@.len() > 0,
{
    let chars: Vec<char> = chars_of(path);
    let mut done: Vec<String> = Vec::new();
    let mut current: String = String::new();
    let mut i: usize = 0;
    proof {
        assert(chars@.take(0) =~= Seq::<char>::empty());
        assert(text::views(done@).push(current@) =~= seq![Seq::<char>::empty()]);
    }
    while i < chars.len()
        invariant
            i <= chars.len(),
            text::views(done@).push(current@) == pieces(chars@.take(i as int)),
        decreases chars.len() - i,
    {
        let ghost before = text::views(done@).push(current@);
        assert(chars@.take(i + 1).drop_last() =~= chars@.take(i as int));
        if chars[i] == '/' {
            done.push(current);
            assert(text::views(done@) =~= before);
            current = String::new();
            assert(current@ =~= Seq::<char>::empty());
        } else {
            current.push(chars[i]);
            assert(text::views(done@).push(current@) =~= before.update(
                before.len() - 1,
                before.last().push(chars@[i as int]),
            ));
        }
        i = i + 1;
    }
    assert(chars@.take(i as int) =~= path@);
    let ghost before = text::views(done@).push(current@);
    done.push(current);
    assert(text::views(done@) =~= before);
    done
}

/// The stretches of a path that name something.
fn named(path: &str) -> (r: Vec<String>)
    ensures
        text::views(r@) == named_parts(path@),
{
    let all: Vec<String> = split_path(path);
    let ghost keep = |p: Seq<char>| is_named(p);
    let ghost list = text::views(all@);
    let mut out: Vec<String> = Vec::new();
    let mut i: usize = 0;
    proof {
        seqs::filter_ends(list, keep);
        assert(text::views(out@) =~= Seq::<Seq<char>>::empty());
    }
    while i < all.len()
        invariant
            i <= all.len(),
            keep == |p: Seq<char>| is_named(p),
            list == text::views(all@),
            text::views(out@) == list.take(i as int).filter(keep),
        decreases all.len() - i,
    {
        proof {
            seqs::filter_step(list, keep, i as int);
            assert(list[i as int] == all@[i as int]@);
            assert(text::views(out@.push(all@[i as int])) =~= text::views(out@).push(
                all@[i as int]@,
            ));
        }
        if !all[i].as_str().is_empty() && !same_text(all[i].as_str(), ".") {
            let part: String = all[i].clone();
            out.push(part);
        }
        i = i + 1;
    }
    proof {
        seqs::filter_ends(list, keep);
    }
    out
}

/// The components of a path.
pub fn component_list(path: &str) -> (r: Vec<String>)
    ensures
        text::views(r@) == components(path@),
{
    let chars: Vec<char> = chars_of(path);
    let all: Vec<String> = split_path(path);
    let mut out: Vec<String> = Vec::new();
    proof {
        assert(all@[0]@ == text::views(all@)[0]);
    }
    if chars.len() > 0 && chars[0] == '/' {
        out.push(owned("/"));
        assert(text::views(out@) =~= seq!["/"@]);
    } else if same_text(all[0].as_str(), ".") {
        out.push(owned("."));
        assert(text::views(out@) =~= seq!["."@]);
    } else {
        assert(text::views(out@) =~= Seq::<Seq<char>>::empty());
    }
    let mut rest: Vec<String> = named(path);
    let ghost lead = out@;
    let ghost tail = rest@;
    out.append(&mut rest);
    assert(text::views(out@) =~= text::views(lead) + text::views(tail));
    out
}

/// A path in normal form: its components, a slash between each two. Paths with the same components
/// have the same normal form.
pub open spec fn normal_form(path: Seq<char>) -> Seq<char> {
    text::joined(components(path), "/"@)
}

/// A path in normal form.
pub fn normal_path(path: &str) -> (r: String)
    ensures
        r@ == normal_form(path@),
{
    join(&component_list(path), "/")
}

/// Whether `base` is the path itself or a folder above it.
pub fn path_starts_with(path: &str, base: &str) -> (r: bool)
    ensures
        r == lies_under(path@, base@),
{
    let whole: Vec<String> = component_list(path);
    let head: Vec<String> = component_list(base);
    let ghost w = text::views(whole@);
    let ghost h = text::views(head@);
    if head.len() > whole.len() {
        assert(h.len() > w.len());
        return false;
    }
    let mut i: usize = 0;
    while i < head.len()
        invariant
            i <= head.len() <= whole.len(),
            w == text::views(whole@),
            h == text::views(head@),
            w == components(path@),
            h == components(base@),
            forall|k: int| 0 <= k < i ==> h[k] == w[k],
        decreases head.len() - i,
    {
        assert(h[i as int] == head@[i as int]@);
        assert(w[i as int] == whole@[i as int]@);
        if !same_text(head[i].as_str(), whole[i].as_str()) {
            assert(!h.is_prefix_of(w)) by {
                if h.is_prefix_of(w) {
                    assert(w.subrange(0, h.len() as int)[i as int] == w[i as int]);
                }
            }
            return false;
        }
        i = i + 1;
    }
    assert(h =~= w.subrange(0, h.len() as int));
    true
}

/// The last component of a path.
pub fn file_name(path: &str) -> (r: Option<String>)
    ensures
        opt_view(r) == name_of(path@),
{
    let parts: Vec<String> = named(path);
    let n: usize = parts.len();
    if n == 0 {
        return None;
    }
    assert(named_parts(path@).last() == parts@[n - 1]@);
    if same_text(parts[n - 1].as_str(), "..") {
        None
    } else {
        Some(parts[n - 1].clone())
    }
}

/// The position of the last dot, one further; zero where there is none.
fn after_last_dot(chars: &Vec<char>) -> (r: usize)
    ensures
        r == last_dot(chars@) + 1,
{
    let mut end: usize = chars.len();
    assert(chars@.take(end as int) =~= chars@);
    while end > 0
        invariant
            end <= chars.len(),
            last_dot(chars@) == last_dot(chars@.take(end as int)),
        decreases end,
    {
        assert(chars@.take(end as int).drop_last() =~= chars@.take(end - 1));
        if chars[end - 1] == '.' {
            return end;
        }
        end = end - 1;
    }
    0
}

/// The file name of a path without its extension.
pub fn file_stem(path: &str) -> (r: Option<String>)
    ensures
        opt_view(r) == stem_of(path@),
{
    match file_name(path) {
        None => None,
        Some(name) => {
            let chars: Vec<char> = chars_of(name.as_str());
            let dot: usize = after_last_dot(&chars);
            proof {
                last_dot_bounds(chars@);
            }
            if dot <= 1 {
                Some(name)
            } else {
                assert(chars@.subrange(0, dot - 1) =~= chars@.take(dot - 1));
                Some(piece(&chars, 0, dot - 1))
            }
        },
    }
}

/// The extension of a path's file name.
pub fn extension(path: &str) -> (r: Option<String>)
    ensures
        opt_view(r) == extension_of(path@),
{
    match file_name(path) {
        None => None,
        Some(name) => {
            let chars: Vec<char> = chars_of(name.as_str());
            let dot: usize = after_last_dot(&chars);
            proof {
                last_dot_bounds(chars@);
            }
            if dot <= 1 {
                None
            } else {
                assert(chars@.subrange(dot as int, chars@.len() as int) =~= chars@.skip(
                    dot as int,
                ));
                Some(piece(&chars, dot, chars.len()))
            }
        },
    }
}

proof fn last_dot_bounds(s: Seq<char>)
    ensures
        -1 <= last_dot(s) < s.len(),
    decreases s.len(),
{
    if s.len() > 0 {
        last_dot_bounds(s.drop_last());
    }
}

/// `name` below `base`.
pub fn join_path(base: &str, name: &str) -> (r: String)
    ensures
        r@ == joined_path(base@, name@),
{
    let b: Vec<char> = chars_of(base);
    let n: Vec<char> = chars_of(name);
    if b.len() == 0 || (n.len() > 0 && n[0] == '/') {
        return owned(name);
    }
    let mut out: String = owned(base);
    if b[b.len() - 1] != '/' {
        out.append("/");
    }
    out.append(name);
    out
}

} // verus!
