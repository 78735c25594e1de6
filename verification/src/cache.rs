//! The profile cache: for each player that has been looked up, the name and
//! the face, the face as base64 text.

use vstd::prelude::*;
use crate::codec::base64_encode;
use crate::codec::base64_encoded;
use crate::model::Player;
use crate::model::PlayerView;
use crate::strmap::StrMap;
use crate::text::concat2;
use crate::text::concat3;

verus! {

/// Where cached files are kept.
pub const CACHE_DIR: &'static str = "../cached";

/// Under which path cached files are served.
pub const CACHE_URL: &'static str = "cached";

/// What is known of a player's profile.
#[derive(Debug, Clone, PartialEq)]
pub struct Profile {
    pub name: String,
    pub face: String,
}

pub struct ProfileView {
    pub name: Seq<char>,
    pub face: Seq<char>,
}

impl View for Profile {
    type V = ProfileView;

    open spec fn view(&self) -> ProfileView {
        ProfileView { name: self.name@, face: self.face@ }
    }
}

/// The data URL of a face given as base64 text.
pub open spec fn data_url(face: Seq<char>) -> Seq<char> {
    "data:image/png;base64,"@ + face
}

/// The data URL of a face given as base64 text.
pub fn avatar_data_url(face: &str) -> (r: String)
    ensures
        r@ == data_url(face@),
{
    concat2("data:image/png;base64,", face)
}

/// Where the name of the player with the given UUID is looked up.
pub fn username_api_url(uuid: &str) -> (r: String)
    ensures
        r@ == "https://api.minecraftservices.com/minecraft/profile/lookup/"@ + uuid@,
{
    concat2("https://api.minecraftservices.com/minecraft/profile/lookup/", uuid)
}

/// Where the face of the player with the given UUID is fetched from.
pub fn face_api_url(uuid: &str) -> (r: String)
    ensures
        r@ == "https://mc-heads.net/avatar/"@ + uuid@ + "/8"@,
{
    concat3("https://mc-heads.net/avatar/", uuid, "/8")
}

/// Where the icon of the world is served from.
pub fn world_icon_url() -> (r: String)
    ensures
        r@ == "/"@ + CACHE_URL@ + "/world/icon.png"@,
{
    concat3("/", CACHE_URL, "/world/icon.png")
}

/// The profiles that have been looked up, by UUID.
#[derive(Debug, Clone, PartialEq)]
pub struct Cache {
    pub profiles: StrMap<Profile>,
}

pub type ProfilesModel = Map<Seq<char>, ProfileView>;

/// What a lookup gives: the name and the data URL of the face.
pub open spec fn served(p: ProfileView) -> (Seq<char>, Seq<char>) {
    (p.name, data_url(p.face))
}

/// The lookup result `r` serves the profile `p`.
pub open spec fn served_as(r: Option<(String, String)>, p: ProfileView) -> bool {
    match r {
        Some((name, url)) => (name@, url@) == served(p),
        None => false,
    }
}

impl Cache {
    pub open spec fn wf(&self) -> bool {
        self.profiles.wf()
    }

    pub open spec fn view(&self) -> ProfilesModel {
        self.profiles.model()
    }

    /// A cache that holds the given profiles.
    pub fn new(profiles: StrMap<Profile>) -> (r: Self)
        requires
            profiles.wf(),
        ensures
            r.wf(),
            r@ == profiles.model(),
    {
        Cache { profiles }
    }

    /// The profile of the player with the given UUID, if it is cached.
    pub fn get_player(&self, uuid: &str) -> (r: Option<Profile>)
        requires
            self.wf(),
        ensures
            match r {
                Some(p) => self@.dom().contains(uuid@) && p@ == self@[uuid@],
                None => !self@.dom().contains(uuid@),
            },
    {
        proof {
            self.profiles.lemma_model_lookup(uuid@);
        }
        match self.profiles.get(uuid) {
            Some(p) => Some(Profile { name: p.name.clone(), face: p.face.clone() }),
            None => None,
        }
    }

    /// Caches the name and the face of a player, the face encoded in
    /// base64.
    pub fn cache_player(&mut self, uuid: &str, name: &str, face_bytes: &[u8])
        requires
            old(self).wf(),
        ensures
            final(self).wf(),
            final(self)@ == old(self)@.insert(
                uuid@,
                ProfileView { name: name@, face: base64_encoded(face_bytes@) },
            ),
    {
        let ghost before = self.profiles;
        let profile = Profile { name: name.to_owned(), face: base64_encode(face_bytes) };
        self.profiles.insert(uuid.to_owned(), profile);
        proof {
            StrMap::lemma_model_insert(before, self.profiles, uuid@, profile);
        }
    }

    /// Looks a player up: a cached profile is served as it is. On a miss,
    /// `fetched` is what the outbound lookups brought, name and face bytes;
    /// where they brought both, the profile is cached and served, else
    /// nothing is.
    pub fn get_cached_or_fetch(&mut self, uuid: &str, fetched: Option<(String, Vec<u8>)>) -> (r:
        Option<(String, String)>)
        requires
            old(self).wf(),
        ensures
            final(self).wf(),
            old(self)@.dom().contains(uuid@) ==> final(self)@ == old(self)@ && served_as(
                r,
                old(self)@[uuid@],
            ),
            !old(self)@.dom().contains(uuid@) ==> match fetched {
                Some((name, bytes)) => {
                    let p = ProfileView { name: name@, face: base64_encoded(bytes@) };
                    final(self)@ == old(self)@.insert(uuid@, p) && served_as(r, p)
                },
                None => final(self)@ == old(self)@ && r is None,
            },
    {
        match self.get_player(uuid) {
            Some(cached) => Some((cached.name, avatar_data_url(cached.face.as_str()))),
            None => match fetched {
                Some((name, bytes)) => {
                    self.cache_player(uuid, name.as_str(), bytes.as_slice());
                    let face = base64_encode(bytes.as_slice());
                    Some((name, avatar_data_url(face.as_str())))
                },
                None => None,
            },
        }
    }

    /// Gives a player the name and the face that the cache holds for it.
    pub fn apply_profile(&self, player: &mut Player)
        requires
            self.wf(),
        ensures
            final(player).uuid == old(player).uuid,
            final(player).stats == old(player).stats,
            self@.dom().contains(old(player).uuid@) ==> final(player)@ == (PlayerView {
                name: Some(self@[old(player).uuid@].name),
                avatar_url: Some(data_url(self@[old(player).uuid@].face)),
                ..old(player)@
            }),
            !self@.dom().contains(old(player).uuid@) ==> *final(player) == *old(player),
    {
        proof {
            self.profiles.lemma_model_lookup(player.uuid@);
        }
        match self.profiles.get(player.uuid.as_str()) {
            Some(profile) => {
                player.name = Some(profile.name.clone());
                player.avatar_url = Some(avatar_data_url(profile.face.as_str()));
            },
            None => {},
        }
    }
}

} // verus!
