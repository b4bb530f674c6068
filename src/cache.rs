//! The snapshot cache: resource kinds and their tags, the selection of the
//! latest snapshot per subject and tag, and what a fetch writes.
use vstd::prelude::*;
use vstd::string::*;
use crate::document::{is_document, json_accepts, profile_identity, identity_spec};
use crate::models::{SteamSnapshot, User};
use crate::retry::FetchError;

verus! {

/// The kinds of upstream data that are cached.
#[derive(Clone, Debug, PartialEq, Eq)]
pub enum ResourceKind {
    PlayerSummary,
    OwnedGames,
    /// The achievements of the subject in one game.
    Achievements(String),
}

impl ResourceKind {
    pub open spec fn tag_spec(&self) -> Seq<char> {
        match self {
            ResourceKind::PlayerSummary => "player_summary"@,
            ResourceKind::OwnedGames => "owned_games"@,
            ResourceKind::Achievements(app_id) => "achievements_"@ + app_id@,
        }
    }

    /// The provider's address for this kind of data about `steam_id`.
    pub open spec fn url_spec(&self, api_key: Seq<char>, steam_id: Seq<char>) -> Seq<char> {
        match self {
            ResourceKind::PlayerSummary =>
                "http://api.steampowered.com/ISteamUser/GetPlayerSummaries/v0002/?key="@ + api_key
                + "&steamids="@ + steam_id,
            ResourceKind::OwnedGames =>
                "http://api.steampowered.com/IPlayerService/GetOwnedGames/v0001/?key="@ + api_key
                + "&steamid="@ + steam_id + "&include_appinfo=1&include_played_free_games=1"@,
            ResourceKind::Achievements(app_id) =>
                "http://api.steampowered.com/ISteamUserStats/GetPlayerAchievements/v0001/?appid="@
                + app_id@ + "&key="@ + api_key + "&steamid="@ + steam_id,
        }
    }

    pub fn upstream_url(&self, api_key: &str, steam_id: &str) -> (r: String)
        ensures
            r@ == self.url_spec(api_key@, steam_id@),
    {
        match self {
            ResourceKind::PlayerSummary => String::from_str(
                "http://api.steampowered.com/ISteamUser/GetPlayerSummaries/v0002/?key=",
            ).concat(api_key).concat("&steamids=").concat(steam_id),
            ResourceKind::OwnedGames => String::from_str(
                "http://api.steampowered.com/IPlayerService/GetOwnedGames/v0001/?key=",
            ).concat(api_key).concat("&steamid=").concat(steam_id).concat(
                "&include_appinfo=1&include_played_free_games=1",
            ),
            ResourceKind::Achievements(app_id) => String::from_str(
                "http://api.steampowered.com/ISteamUserStats/GetPlayerAchievements/v0001/?appid=",
            ).concat(app_id.as_str()).concat("&key=").concat(api_key).concat("&steamid=").concat(
                steam_id,
            ),
        }
    }

    /// The tag under which snapshots of this kind are stored.
    pub fn tag(&self) -> (r: String)
        ensures
            r@ == self.tag_spec(),
    {
        match self {
            ResourceKind::PlayerSummary => String::from_str("player_summary"),
            ResourceKind::OwnedGames => String::from_str("owned_games"),
            ResourceKind::Achievements(app_id) => String::from_str("achievements_").concat(
                app_id.as_str(),
            ),
        }
    }
}

pub open spec fn row_matches(s: SteamSnapshot, key: Seq<char>, tag: Seq<char>) -> bool {
    s.steam_id@ == key && s.data_type@ == tag
}

/// Row `i` is the one read for `key` and `tag`: it matches, and no matching
/// row is newer, nor as new and written after it.
pub open spec fn is_latest(rows: Seq<SteamSnapshot>, i: int, key: Seq<char>, tag: Seq<char>) -> bool {
    &&& 0 <= i < rows.len()
    &&& row_matches(rows[i], key, tag)
    &&& forall|j: int| 0 <= j < rows.len() && #[trigger] row_matches(rows[j], key, tag)
        ==> rows[j].created_at < rows[i].created_at
            || (rows[j].created_at == rows[i].created_at && j <= i)
}

/// At most one row is the latest.
pub proof fn lemma_latest_unique(rows: Seq<SteamSnapshot>, i: int, k: int, key: Seq<char>, tag: Seq<char>)
    requires
        is_latest(rows, i, key, tag),
        is_latest(rows, k, key, tag),
    ensures
        i == k,
{
    assert(row_matches(rows[k], key, tag));
    assert(row_matches(rows[i], key, tag));
}

/// Round trip: a snapshot written no earlier than every stored row of its
/// subject and tag is the one read back for them, payload and all.
pub proof fn lemma_round_trip(rows: Seq<SteamSnapshot>, snap: SteamSnapshot)
    requires
        forall|j: int| 0 <= j < rows.len() && #[trigger] row_matches(rows[j], snap.steam_id@, snap.data_type@)
            ==> rows[j].created_at <= snap.created_at,
    ensures
        is_latest(rows.push(snap), rows.len() as int, snap.steam_id@, snap.data_type@),
        forall|i: int| #[trigger] is_latest(rows.push(snap), i, snap.steam_id@, snap.data_type@)
            ==> i == rows.len() && rows.push(snap)[i].json_data == snap.json_data,
{
    let nr = rows.push(snap);
    let key = snap.steam_id@;
    let tag = snap.data_type@;
    assert forall|j: int| 0 <= j < nr.len() && #[trigger] row_matches(nr[j], key, tag)
        implies nr[j].created_at < nr[rows.len() as int].created_at
            || (nr[j].created_at == nr[rows.len() as int].created_at && j <= rows.len()) by {
        if j < rows.len() {
            assert(nr[j] == rows[j]);
            assert(row_matches(rows[j], key, tag));
        }
    }
    assert forall|i: int| #[trigger] is_latest(nr, i, key, tag) implies i == rows.len()
        && nr[i].json_data == snap.json_data by {
        lemma_latest_unique(nr, i, rows.len() as int, key, tag);
    }
}

/// A first fetch and the next request: with no row stored for a subject and
/// tag nothing is read, so the request goes upstream; once the fetched
/// snapshot is written, it is the row read, and a request served from it
/// makes no upstream call.
pub proof fn lemma_miss_then_hit(rows: Seq<SteamSnapshot>, snap: SteamSnapshot)
    requires
        forall|j: int| 0 <= j < rows.len() ==> !#[trigger] row_matches(rows[j], snap.steam_id@, snap.data_type@),
    ensures
        forall|i: int| !#[trigger] is_latest(rows, i, snap.steam_id@, snap.data_type@),
        is_latest(rows.push(snap), rows.len() as int, snap.steam_id@, snap.data_type@),
        forall|i: int| #[trigger] is_latest(rows.push(snap), i, snap.steam_id@, snap.data_type@)
            ==> i == rows.len(),
{
    lemma_round_trip(rows, snap);
    assert forall|i: int| !#[trigger] is_latest(rows, i, snap.steam_id@, snap.data_type@) by {
        if 0 <= i < rows.len() {
            assert(!row_matches(rows[i], snap.steam_id@, snap.data_type@));
        }
    }
}

/// What the cache serves from the row it read: its payload, if the row
/// exists and still holds a JSON document; `None` means fetch upstream.
pub fn serve_from_cache(row: Option<&String>) -> (r: Option<String>)
    ensures
        match row {
            Some(t) => if json_accepts(t@) { r == Some(*t) } else { r.is_none() },
            None => r.is_none(),
        },
{
    match row {
        Some(t) => if is_document(t.as_str()) {
            Some(t.clone())
        } else {
            None
        },
        None => None,
    }
}

/// The snapshot that a successful fetch writes, payload verbatim.
pub fn snapshot_for(key: &String, kind: &ResourceKind, payload: String, now: u64) -> (s: SteamSnapshot)
    ensures
        s.steam_id@ == key@,
        s.data_type@ == kind.tag_spec(),
        s.json_data == payload,
        s.created_at == now,
{
    SteamSnapshot { steam_id: key.clone(), data_type: kind.tag(), json_data: payload, created_at: now }
}

/// The profile row that a fetch of `kind` for `key` returning `payload` at
/// `now` upserts: present exactly for a profile summary that names a first
/// player, and then holding that player's name and avatar.
pub open spec fn profile_row_spec(r: Option<User>, key: Seq<char>, kind: ResourceKind, payload: Seq<char>, now: u64) -> bool {
    if kind is PlayerSummary && identity_spec(payload) is Some {
        let (name, avatar) = identity_spec(payload).unwrap();
        &&& r matches Some(u)
        &&& u.steam_id@ == key
        &&& u.username matches Some(n) && n@ == name
        &&& u.avatar_url matches Some(a) && a@ == avatar
        &&& u.last_updated == Some(now)
    } else {
        r.is_none()
    }
}

/// The profile row that a successful fetch upserts: only a profile summary
/// that names a first player gives one.
pub fn profile_update(key: &String, kind: &ResourceKind, payload: &str, now: u64) -> (r: Option<User>)
    ensures
        profile_row_spec(r, key@, *kind, payload@, now),
        !json_accepts(payload@) ==> r.is_none(),
{
    match kind {
        ResourceKind::PlayerSummary => match profile_identity(payload) {
            Some(id) => Some(
                User {
                    steam_id: key.clone(),
                    username: Some(id.display_name),
                    avatar_url: Some(id.avatar_url),
                    last_updated: Some(now),
                },
            ),
            None => None,
        },
        _ => None,
    }
}

/// What a fetch on a cache miss leads to: the rows to write and what the
/// request gets.
pub struct FetchPlan {
    /// The snapshot to append, on success.
    pub snapshot: Option<SteamSnapshot>,
    /// The profile row to upsert, on a successful profile-summary fetch.
    pub profile: Option<User>,
    /// The payload served, or the error that leaves this piece out.
    pub served: Result<String, FetchError>,
}

/// Plan the writes for a fetch outcome: a success stores the payload
/// verbatim, upserts the profile where the summary names a player, and serves
/// the payload; a failure writes nothing and is passed on.
pub fn plan_after_fetch(key: &String, kind: &ResourceKind, outcome: Result<String, FetchError>, now: u64) -> (p: FetchPlan)
    ensures
        match outcome {
            Ok(payload) => {
                &&& p.served == Ok::<String, FetchError>(payload)
                &&& p.snapshot matches Some(s) && s.steam_id@ == key@ && s.data_type@ == kind.tag_spec()
                    && s.json_data == payload && s.created_at == now
                &&& profile_row_spec(p.profile, key@, *kind, payload@, now)
                &&& !json_accepts(payload@) ==> p.profile.is_none()
            },
            Err(e) => p.snapshot.is_none() && p.profile.is_none() && p.served == Err::<String, FetchError>(e),
        },
{
    match outcome {
        Ok(payload) => {
            let profile = profile_update(key, kind, payload.as_str(), now);
            let snapshot = snapshot_for(key, kind, payload.clone(), now);
            FetchPlan { snapshot: Some(snapshot), profile, served: Ok(payload) }
        },
        Err(e) => FetchPlan { snapshot: None, profile: None, served: Err(e) },
    }
}

/// Snapshots in the order they were written.
pub struct SnapshotStore {
    rows: Vec<SteamSnapshot>,
}

impl SnapshotStore {
    pub closed spec fn rows(&self) -> Seq<SteamSnapshot> {
        self.rows@
    }

    pub fn new() -> (s: SnapshotStore)
        ensures
            s.rows() == Seq::<SteamSnapshot>::empty(),
    {
        SnapshotStore { rows: Vec::new() }
    }

    pub fn len(&self) -> (n: usize)
        ensures
            n == self.rows().len(),
    {
        self.rows.len()
    }

    /// Append a snapshot; nothing stored is changed.
    pub fn record(&mut self, snap: SteamSnapshot)
        ensures
            final(self).rows() == old(self).rows().push(snap),
    {
        self.rows.push(snap);
    }

    /// The latest row for `key` and `tag`, if any row matches.
    pub fn latest(&self, key: &String, tag: &String) -> (r: Option<&SteamSnapshot>)
        ensures
            match r {
                Some(s) => exists|i: int| #[trigger] is_latest(self.rows(), i, key@, tag@) && self.rows()[i] == *s,
                None => forall|j: int| 0 <= j < self.rows().len() ==> !#[trigger] row_matches(self.rows()[j], key@, tag@),
            },
    {
        let n = self.rows.len();
        let mut best: Option<usize> = None;
        let mut i: usize = 0;
        while i < n
            invariant
                n == self.rows@.len(),
                i <= n,
                match best {
                    Some(b) => {
                        &&& b < i
                        &&& row_matches(self.rows@[b as int], key@, tag@)
                        &&& forall|j: int| 0 <= j < i && #[trigger] row_matches(self.rows@[j], key@, tag@)
                            ==> self.rows@[j].created_at < self.rows@[b as int].created_at
                                || (self.rows@[j].created_at == self.rows@[b as int].created_at && j <= b)
                    },
                    None => forall|j: int| 0 <= j < i ==> !#[trigger] row_matches(self.rows@[j], key@, tag@),
                },
            decreases n - i,
        {
            let row = &self.rows[i];
            if row.steam_id == *key && row.data_type == *tag {
                let newer = match best {
                    None => true,
                    Some(b) => row.created_at >= self.rows[b].created_at,
                };
                if newer {
                    best = Some(i);
                }
            }
            i = i + 1;
        }
        match best {
            Some(b) => {
                assert(is_latest(self.rows(), b as int, key@, tag@));
                Some(&self.rows[b])
            },
            None => None,
        }
    }

    /// Read through the cache: the payload of the latest row for `key` and
    /// `kind`, where it holds a JSON document; `None` means fetch upstream.
    pub fn lookup(&self, key: &String, kind: &ResourceKind) -> (r: Option<String>)
        ensures
            match r {
                Some(p) => exists|i: int| #[trigger] is_latest(self.rows(), i, key@, kind.tag_spec())
                    && self.rows()[i].json_data == p && json_accepts(p@),
                None => forall|i: int| #[trigger] is_latest(self.rows(), i, key@, kind.tag_spec())
                    ==> !json_accepts(self.rows()[i].json_data@),
            },
    {
        let tag = kind.tag();
        match self.latest(key, &tag) {
            Some(s) => {
                let r = serve_from_cache(Some(&s.json_data));
                proof {
                    let i = choose|i: int| #[trigger] is_latest(self.rows(), i, key@, tag@) && self.rows()[i] == *s;
                    assert forall|k: int| #[trigger] is_latest(self.rows(), k, key@, tag@) implies k == i by {
                        lemma_latest_unique(self.rows(), k, i, key@, tag@);
                    }
                }
                r
            },
            None => {
                proof {
                    assert forall|i: int| #[trigger] is_latest(self.rows(), i, key@, tag@) implies false by {
                        assert(row_matches(self.rows()[i], key@, tag@));
                    }
                }
                None
            },
        }
    }
}

/// Profile rows, one per subject key.
pub struct ProfileTable {
    rows: Vec<User>,
}

impl ProfileTable {
    pub closed spec fn rows(&self) -> Seq<User> {
        self.rows@
    }

    pub open spec fn wf(&self) -> bool {
        forall|i: int, j: int| 0 <= i < j < self.rows().len()
            ==> #[trigger] self.rows()[i].steam_id@ != #[trigger] self.rows()[j].steam_id@
    }

    pub fn new() -> (t: ProfileTable)
        ensures
            t.wf(),
            t.rows() == Seq::<User>::empty(),
    {
        ProfileTable { rows: Vec::new() }
    }

    pub fn len(&self) -> (n: usize)
        ensures
            n == self.rows().len(),
    {
        self.rows.len()
    }

    /// The index of the row of `key`, if there is one.
    fn position(&self, key: &String) -> (r: Option<usize>)
        ensures
            match r {
                Some(i) => i < self.rows().len() && self.rows()[i as int].steam_id@ == key@,
                None => forall|i: int| 0 <= i < self.rows().len() ==> #[trigger] self.rows()[i].steam_id@ != key@,
            },
    {
        let n = self.rows.len();
        let mut i: usize = 0;
        while i < n
            invariant
                n == self.rows@.len(),
                i <= n,
                forall|k: int| 0 <= k < i ==> #[trigger] self.rows@[k].steam_id@ != key@,
            decreases n - i,
        {
            if self.rows[i].steam_id == *key {
                return Some(i);
            }
            i = i + 1;
        }
        None
    }

    /// The row of `key`, if there is one.
    pub fn get(&self, key: &String) -> (r: Option<&User>)
        ensures
            match r {
                Some(u) => exists|i: int| 0 <= i < self.rows().len() && #[trigger] self.rows()[i] == *u
                    && u.steam_id@ == key@,
                None => forall|i: int| 0 <= i < self.rows().len() ==> #[trigger] self.rows()[i].steam_id@ != key@,
            },
    {
        match self.position(key) {
            Some(i) => Some(&self.rows[i]),
            None => None,
        }
    }

    /// Insert the row if its subject has none, else overwrite that subject's
    /// row in place.
    pub fn upsert(&mut self, user: User)
        requires
            old(self).wf(),
        ensures
            final(self).wf(),
            (exists|i: int| 0 <= i < old(self).rows().len()
                && #[trigger] old(self).rows()[i].steam_id@ == user.steam_id@
                && final(self).rows() == old(self).rows().update(i, user))
            || ((forall|i: int| 0 <= i < old(self).rows().len()
                ==> #[trigger] old(self).rows()[i].steam_id@ != user.steam_id@)
                && final(self).rows() == old(self).rows().push(user)),
    {
        let ghost pre = self.rows@;
        match self.position(&user.steam_id) {
            Some(i) => {
                let ghost u = user;
                self.rows.set(i, user);
                proof {
                    assert(pre[i as int].steam_id@ == u.steam_id@);
                    assert forall|a: int, b: int| 0 <= a < b < self.rows().len()
                        implies #[trigger] self.rows()[a].steam_id@ != #[trigger] self.rows()[b].steam_id@ by {
                        assert(pre[a].steam_id@ != pre[b].steam_id@);
                    }
                }
            },
            None => {
                self.rows.push(user);
                proof {
                    assert forall|a: int, b: int| 0 <= a < b < self.rows().len()
                        implies #[trigger] self.rows()[a].steam_id@ != #[trigger] self.rows()[b].steam_id@ by {
                        if b < pre.len() {
                            assert(pre[a].steam_id@ != pre[b].steam_id@);
                        } else {
                            assert(pre[a].steam_id@ != self.rows()[b].steam_id@);
                        }
                    }
                }
            },
        }
    }
}

} // verus!
