//! The `sys` capability: randomness and room-reference resolution.
//!
//! A room reference is either already a canonical room id, which resolves
//! to itself, or a room alias, which is looked up first in an in-process
//! cache and otherwise must be asked of the transport; the answer is then
//! cached for the lifetime of the process.

use vstd::prelude::*;

verus! {

/// The `sys` capability handed to one guest module.
pub struct SysApi {}

impl SysApi {
    pub fn new() -> SysApi {
        SysApi {  }
    }

    /// Relies on `rand::random::<u64>()`: a fresh random value; nothing
    /// can be promised of it.
    #[verifier::external_body]
    pub fn rand_u64(&mut self) -> u64 {
        rand::random::<u64>()
    }
}

/// The shared shape of room ids and aliases: a sigil, a non-empty local
/// part, `:`, and a non-empty server part.
pub open spec fn has_shape(s: Seq<char>, sigil: char) -> bool {
    &&& s.len() >= 4
    &&& s[0] == sigil
    &&& exists|i: int| 2 <= i <= s.len() - 2 && s[i] == ':'
}

/// A canonical room id.
pub open spec fn is_room_id(s: Seq<char>) -> bool {
    has_shape(s, '!')
}

/// A canonical room alias.
pub open spec fn is_room_alias(s: Seq<char>) -> bool {
    has_shape(s, '#')
}

/// Checks the shared shape of room ids and aliases.
fn has_reference_shape(chars: &Vec<char>, sigil: char) -> (r: bool)
    ensures
        r == has_shape(chars@, sigil),
{
    let n = chars.len();
    if n < 4 {
        return false;
    }
    if chars[0] != sigil {
        return false;
    }
    let mut i: usize = 2;
    while i <= n - 2
        invariant
            2 <= i <= n - 1,
            n == chars@.len(),
            n >= 4,
            chars@[0] == sigil,
            forall|j: int| 2 <= j < i ==> chars@[j] != ':',
        decreases n - i,
    {
        if chars[i] == ':' {
            proof {
                assert(chars@[i as int] == ':');
                assert(has_shape(chars@, sigil));
            }
            return true;
        }
        i = i + 1;
    }
    proof {
        assert(!has_shape(chars@, sigil)) by {
            if exists|j: int| 2 <= j <= chars@.len() - 2 && chars@[j] == ':' {
                let j = choose|j: int| 2 <= j <= chars@.len() - 2 && chars@[j] == ':';
                assert(chars@[j] != ':');
            }
        }
    }
    false
}

/// What one lookup step decides for a room reference, before any
/// transport query.
pub enum RoomResolution {
    /// The string carries no room sigil: it is simply not a room
    /// reference.
    NotARoom,
    /// The string is already a canonical room id and resolves to itself.
    RoomId(String),
    /// The alias was resolved from the cache.
    Cached(String),
    /// The alias is well-formed but unknown: the transport must be asked,
    /// and the answer recorded with `note_alias`.
    NeedsQuery,
    /// The string carries a room sigil but is neither a canonical id nor
    /// a canonical alias.
    InvalidAlias,
}

/// An alias cache as a map, from the association list that stores it;
/// a later entry wins over an earlier one with the same alias.
pub open spec fn cache_map(entries: Seq<(Seq<char>, Seq<char>)>) -> Map<Seq<char>, Seq<char>>
    decreases entries.len(),
{
    if entries.len() == 0 {
        Map::empty()
    } else {
        cache_map(entries.drop_last()).insert(entries.last().0, entries.last().1)
    }
}

/// The view-level counterpart of [`RoomResolution`], with the answers as
/// character sequences.
pub enum SpecResolution {
    NotARoom,
    RoomId(Seq<char>),
    Cached(Seq<char>),
    NeedsQuery,
    InvalidAlias,
}

/// What resolution a given cache state and input decide: a room id
/// resolves to itself, a cached alias to its cached id.
pub open spec fn spec_resolve(cache: Map<Seq<char>, Seq<char>>, s: Seq<char>) -> SpecResolution {
    if s.len() == 0 || (s[0] != '#' && s[0] != '!') {
        SpecResolution::NotARoom
    } else if is_room_id(s) {
        SpecResolution::RoomId(s)
    } else if is_room_alias(s) {
        if cache.contains_key(s) {
            SpecResolution::Cached(cache[s])
        } else {
            SpecResolution::NeedsQuery
        }
    } else {
        SpecResolution::InvalidAlias
    }
}

/// Translates room aliases into room ids, memoizing transport answers.
pub struct RoomResolver {
    room_cache: Vec<(String, String)>,
}

impl RoomResolver {
    /// The memoized alias-to-id mapping.
    pub closed spec fn spec_cache(&self) -> Map<Seq<char>, Seq<char>> {
        cache_map(self.room_cache@.map_values(|e: (String, String)| (e.0@, e.1@)))
    }

    pub fn new() -> (r: RoomResolver)
        ensures
            r.spec_cache() == Map::<Seq<char>, Seq<char>>::empty(),
    {
        let r = RoomResolver { room_cache: Vec::new() };
        proof {
            assert(r.room_cache@.map_values(|e: (String, String)| (e.0@, e.1@)).len() == 0);
        }
        r
    }

    /// Decides one resolution step without touching the transport: a
    /// string without a room sigil is not a room; a canonical room id
    /// resolves to itself, unchanged; a canonical alias resolves from the
    /// cache when present and otherwise asks for a transport query; any
    /// other sigil-carrying string is invalid.
    pub fn resolve_room(&self, room: &str) -> (r: RoomResolution)
        ensures
            match r {
                RoomResolution::NotARoom => spec_resolve(self.spec_cache(), room@)
                    is NotARoom,
                RoomResolution::RoomId(id) => spec_resolve(self.spec_cache(), room@)
                    == SpecResolution::RoomId(id@),
                RoomResolution::Cached(id) => spec_resolve(self.spec_cache(), room@)
                    == SpecResolution::Cached(id@),
                RoomResolution::NeedsQuery => spec_resolve(self.spec_cache(), room@)
                    is NeedsQuery,
                RoomResolution::InvalidAlias => spec_resolve(self.spec_cache(), room@)
                    is InvalidAlias,
            },
    {
        let chars = crate::textutil::chars_of(room);
        let n = chars.len();
        if n == 0 || (chars[0] != '#' && chars[0] != '!') {
            return RoomResolution::NotARoom;
        }
        if has_reference_shape(&chars, '!') {
            return RoomResolution::RoomId(room.to_owned());
        }
        if has_reference_shape(&chars, '#') {
            match self.cache_get(room) {
                Some(id) => RoomResolution::Cached(id),
                None => RoomResolution::NeedsQuery,
            }
        } else {
            RoomResolution::InvalidAlias
        }
    }

    /// Records a transport answer for an alias; a later note for the same
    /// alias overrides an earlier one.
    pub fn note_alias(&mut self, alias: &str, id: &str)
        ensures
            final(self).spec_cache() == old(self).spec_cache().insert(alias@, id@),
    {
        let ghost a_view = alias@;
        let ghost i_view = id@;
        self.room_cache.push((alias.to_owned(), id.to_owned()));
        proof {
            let entries = self.room_cache@.map_values(|e: (String, String)| (e.0@, e.1@));
            assert(entries.drop_last() =~= old(self).room_cache@.map_values(
                |e: (String, String)| (e.0@, e.1@),
            ));
            assert(entries.last() == (a_view, i_view));
        }
    }

    /// The cached id for an alias, if any.
    fn cache_get(&self, alias: &str) -> (r: Option<String>)
        ensures
            match r {
                Some(id) => self.spec_cache().contains_key(alias@) && id@ == self.spec_cache().index(alias@),
                None => !self.spec_cache().contains_key(alias@),
            },
    {
        let alias_string = alias.to_owned();
        let n = self.room_cache.len();
        proof {
            let entries = self.room_cache@.map_values(|e: (String, String)| (e.0@, e.1@));
            assert(entries.take(n as int) =~= entries);
        }
        let mut i: usize = n;
        while i > 0
            invariant
                i <= n,
                n == self.room_cache@.len(),
                alias_string@ == alias@,
                cache_map_agrees(
                    self.room_cache@.map_values(|e: (String, String)| (e.0@, e.1@)),
                    i as int,
                    alias@,
                ),
            decreases i,
        {
            i = i - 1;
            proof {
                let entries = self.room_cache@.map_values(|e: (String, String)| (e.0@, e.1@));
                assert(entries[i as int] == (self.room_cache@[i as int].0@, self.room_cache@[
                    i as int].1@));
            }
            if self.room_cache[i].0.eq(&alias_string) {
                let id = self.room_cache[i].1.clone();
                proof {
                    let entries = self.room_cache@.map_values(|e: (String, String)| (e.0@, e.1@));
                    lemma_cache_take_lookup(entries, i as int, alias@);
                }
                return Some(id);
            }
            proof {
                let entries = self.room_cache@.map_values(|e: (String, String)| (e.0@, e.1@));
                lemma_cache_take_step(entries, i as int, alias@);
            }
        }
        proof {
            let entries = self.room_cache@.map_values(|e: (String, String)| (e.0@, e.1@));
            assert(entries.take(0) =~= Seq::<(Seq<char>, Seq<char>)>::empty());
        }
        None
    }
}

/// True when the cache lookup of `alias` over the whole list agrees with
/// the lookup over its first `i` entries (the later entries miss).
pub open spec fn cache_map_agrees(
    entries: Seq<(Seq<char>, Seq<char>)>,
    i: int,
    alias: Seq<char>,
) -> bool {
    &&& (cache_map(entries.take(i)).contains_key(alias) ==> cache_map(entries).contains_key(alias)
        && cache_map(entries)[alias] == cache_map(entries.take(i))[alias])
    &&& (!cache_map(entries.take(i)).contains_key(alias) ==> !cache_map(entries).contains_key(
        alias,
    ))
}

proof fn lemma_cache_take_lookup(entries: Seq<(Seq<char>, Seq<char>)>, i: int, alias: Seq<char>)
    requires
        0 <= i < entries.len(),
        entries[i].0 == alias,
        cache_map_agrees(entries, i + 1, alias),
    ensures
        cache_map(entries).contains_key(alias),
        cache_map(entries)[alias] == entries[i].1,
{
    assert(entries.take(i + 1).drop_last() =~= entries.take(i));
    assert(entries.take(i + 1).last() == entries[i]);
    assert(cache_map(entries.take(i + 1)) == cache_map(entries.take(i)).insert(
        entries[i].0,
        entries[i].1,
    ));
}

proof fn lemma_cache_take_step(entries: Seq<(Seq<char>, Seq<char>)>, i: int, alias: Seq<char>)
    requires
        0 <= i < entries.len(),
        entries[i].0 != alias,
        cache_map_agrees(entries, i + 1, alias),
    ensures
        cache_map_agrees(entries, i, alias),
{
    assert(entries.take(i + 1).drop_last() =~= entries.take(i));
    assert(entries.take(i + 1).last() == entries[i]);
    assert(cache_map(entries.take(i + 1)) == cache_map(entries.take(i)).insert(
        entries[i].0,
        entries[i].1,
    ));
}

/// Law: a canonical room id resolves to itself, whatever the cache holds.
pub proof fn lemma_room_id_resolves_unchanged(cache: Map<Seq<char>, Seq<char>>, s: Seq<char>)
    requires
        is_room_id(s),
    ensures
        spec_resolve(cache, s) == SpecResolution::RoomId(s),
{
}

/// Law: once an alias is cached, resolving it is answered from the cache
/// with the cached id, and asks for no transport query, whatever it was
/// before.
pub proof fn lemma_cached_alias_needs_no_query(
    cache: Map<Seq<char>, Seq<char>>,
    alias: Seq<char>,
    id: Seq<char>,
)
    requires
        is_room_alias(alias),
    ensures
        spec_resolve(cache.insert(alias, id), alias) == SpecResolution::Cached(id),
{
    assert(alias[0] == '#');
    assert(!is_room_id(alias));
}

} // verus!
