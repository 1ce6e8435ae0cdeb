//! The records the server and the sync index hand to the library.
use vstd::prelude::*;
use crate::text::same_text;

verus! {

/// Pixel size that the server read from an asset's metadata.
#[derive(Debug, PartialEq, Eq)]
pub struct ExifSize {
    pub exif_image_width: Option<u32>,
    pub exif_image_height: Option<u32>,
}

impl Clone for ExifSize {
    fn clone(&self) -> (r: Self)
        ensures
            r == *self,
    {
        ExifSize {
            exif_image_width: self.exif_image_width,
            exif_image_height: self.exif_image_height,
        }
    }
}

/// One asset as a listing reports it.
#[derive(Debug, PartialEq, Eq)]
pub struct LibraryAsset {
    pub id: String,
    pub filename: String,
    pub mime_type: String,
    pub created_at: String,
    /// "IMAGE" or "VIDEO".
    pub asset_type: String,
    pub thumbhash: Option<String>,
    pub width: Option<u32>,
    pub height: Option<u32>,
    /// The content checksum in the server's encoding, where it has one.
    pub checksum: Option<String>,
    pub exif_info: Option<ExifSize>,
}

impl Clone for LibraryAsset {
    fn clone(&self) -> (r: Self)
        ensures
            r == *self,
    {
        LibraryAsset {
            id: self.id.clone(),
            filename: self.filename.clone(),
            mime_type: self.mime_type.clone(),
            created_at: self.created_at.clone(),
            asset_type: self.asset_type.clone(),
            thumbhash: self.thumbhash.clone(),
            width: self.width,
            height: self.height,
            checksum: self.checksum.clone(),
            exif_info: self.exif_info.clone(),
        }
    }
}

/// The account behind an album membership.
#[derive(Debug, PartialEq, Eq)]
pub struct AlbumUserInfo {
    pub id: String,
}

/// One member of an album and the member's role.
#[derive(Debug, PartialEq, Eq)]
pub struct AlbumUser {
    pub user: AlbumUserInfo,
    pub role: String,
}

/// One album as a listing reports it.
#[derive(Debug, PartialEq, Eq)]
pub struct LibraryAlbum {
    pub id: String,
    pub album_name: String,
    pub asset_count: u32,
    pub thumbnail_asset_id: Option<String>,
    pub created_at: String,
    pub updated_at: String,
    pub description: String,
    pub album_users: Vec<AlbumUser>,
}

/// The id of the first member with the role "owner"; empty where there is none.
pub open spec fn owner_of(users: Seq<AlbumUser>) -> Seq<char>
    decreases users.len(),
{
    if users.len() == 0 {
        Seq::empty()
    } else if users[0].role@ == "owner"@ {
        users[0].user.id@
    } else {
        owner_of(users.drop_first())
    }
}

impl LibraryAlbum {
    /// The id of the account that owns the album; empty where the listing names none.
    pub fn owner_id(&self) -> (r: String)
        ensures
            r@ == owner_of(self.album_users@),
    {
        let mut i: usize = 0;
        assert(self.album_users@.skip(0) =~= self.album_users@);
        while i < self.album_users.len()
            invariant
                i <= self.album_users.len(),
                owner_of(self.album_users@) == owner_of(self.album_users@.skip(i as int)),
            decreases self.album_users.len() - i,
        {
            assert(self.album_users@.skip(i as int).drop_first() =~= self.album_users@.skip(i + 1));
            if same_text(self.album_users[i].role.as_str(), "owner") {
                return self.album_users[i].user.id.clone();
            }
            i = i + 1;
        }
        String::new()
    }
}

/// The owner of an album is its first member with the role "owner".
pub proof fn owner_is_the_first_with_the_role(album: &LibraryAlbum, owner: String, k: int)
    requires
        call_ensures(LibraryAlbum::owner_id, (album,), owner),
        0 <= k < album.album_users@.len(),
        album.album_users@[k].role@ == "owner"@,
        forall|j: int| 0 <= j < k ==> (#[trigger] album.album_users@[j]).role@ != "owner"@,
    ensures
        owner@ == album.album_users@[k].user.id@,
{
    first_owner(album.album_users@, k);
}

proof fn first_owner(users: Seq<AlbumUser>, k: int)
    requires
        0 <= k < users.len(),
        users[k].role@ == "owner"@,
        forall|j: int| 0 <= j < k ==> (#[trigger] users[j]).role@ != "owner"@,
    ensures
        owner_of(users) == users[k].user.id@,
    decreases users.len(),
{
    if k > 0 {
        let rest = users.drop_first();
        assert(users[0].role@ != "owner"@);
        assert forall|j: int| 0 <= j < k - 1 implies (#[trigger] rest[j]).role@ != "owner"@ by {
            assert(rest[j] == users[j + 1]);
        }
        first_owner(rest, k - 1);
    }
}

} // verus!
