//! The Redis keys of a scope.
//!
//! The entries of a scope are the fields of one hash. Beside it stand the keys of the pagination
//! index: sorted sets that list the fields, and the strings that say which of them is in use and
//! how far building a new one has come.

use crate::text::join;
use vstd::prelude::*;

verus! {

/// What a key of a scope is for.
pub enum KeyRole {
    /// The hash that holds the entries.
    Hash,
    /// Names the sorted set that pages are read from.
    Active,
    /// The phase of a running rebuild of the index.
    Phase,
    /// How far the running phase has scanned the hash.
    Cursor,
    /// The sorted set that a rebuild fills.
    Target,
    /// The sorted set that the target is checked against.
    Verify,
}

/// What the key of a hash begins with.
pub const HASH_PREFIX: &'static str = "state:";

/// The key of a scope in a role.
pub open spec fn key_of(role: KeyRole, scope: Seq<char>) -> Seq<char> {
    match role {
        KeyRole::Hash => HASH_PREFIX@ + scope,
        KeyRole::Active => "iii:state-index-active:"@ + scope,
        KeyRole::Phase => "iii:state-index-phase:"@ + scope,
        KeyRole::Cursor => "iii:state-index-cursor:"@ + scope,
        KeyRole::Target => "iii:state-index:"@ + scope + ":v1"@,
        KeyRole::Verify => "iii:state-index-verify:"@ + scope,
    }
}

/// The keys of one scope.
#[derive(Debug, Clone)]
pub struct StateKeys {
    pub hash: String,
    pub active: String,
    pub phase: String,
    pub cursor: String,
    pub target: String,
    pub verify: String,
}

impl StateKeys {
    /// These are the keys of `scope`.
    pub open spec fn are_of(&self, scope: Seq<char>) -> bool {
        &&& self.hash@ == key_of(KeyRole::Hash, scope)
        &&& self.active@ == key_of(KeyRole::Active, scope)
        &&& self.phase@ == key_of(KeyRole::Phase, scope)
        &&& self.cursor@ == key_of(KeyRole::Cursor, scope)
        &&& self.target@ == key_of(KeyRole::Target, scope)
        &&& self.verify@ == key_of(KeyRole::Verify, scope)
    }
}

/// The keys of a scope.
pub fn state_keys(scope: &str) -> (keys: StateKeys)
    ensures
        keys.are_of(scope@),
{
    StateKeys {
        hash: join(HASH_PREFIX, scope),
        active: join("iii:state-index-active:", scope),
        phase: join("iii:state-index-phase:", scope),
        cursor: join("iii:state-index-cursor:", scope),
        target: join(join("iii:state-index:", scope).as_str(), ":v1"),
        verify: join("iii:state-index-verify:", scope),
    }
}

proof fn lemma_key_literals()
    ensures
        HASH_PREFIX@.len() == 6,
        HASH_PREFIX@[0] == 's',
        "iii:state-index-active:"@.len() == 23,
        "iii:state-index-phase:"@.len() == 22,
        "iii:state-index-cursor:"@.len() == 23,
        "iii:state-index:"@.len() == 16,
        "iii:state-index-verify:"@.len() == 23,
        "iii:state-index-active:"@[0] == 'i',
        "iii:state-index-phase:"@[0] == 'i',
        "iii:state-index-cursor:"@[0] == 'i',
        "iii:state-index:"@[0] == 'i',
        "iii:state-index-verify:"@[0] == 'i',
        "iii:state-index-active:"@[15] == '-',
        "iii:state-index-phase:"@[15] == '-',
        "iii:state-index-cursor:"@[15] == '-',
        "iii:state-index:"@[15] == ':',
        "iii:state-index-verify:"@[15] == '-',
        "iii:state-index-active:"@[16] == 'a',
        "iii:state-index-phase:"@[16] == 'p',
        "iii:state-index-cursor:"@[16] == 'c',
        "iii:state-index-verify:"@[16] == 'v',
        ":v1"@.len() == 3,
{
    reveal_strlit("state:");
    reveal_strlit("iii:state-index-active:");
    reveal_strlit("iii:state-index-phase:");
    reveal_strlit("iii:state-index-cursor:");
    reveal_strlit("iii:state-index:");
    reveal_strlit("iii:state-index-verify:");
    reveal_strlit(":v1");
}

/// What stands between a given beginning and a given end.
proof fn lemma_same_middle(head: Seq<char>, a: Seq<char>, b: Seq<char>, tail: Seq<char>)
    requires
        head + a + tail == head + b + tail,
    ensures
        a == b,
{
    let s = head + a + tail;
    let t = head + b + tail;
    assert(s.len() == head.len() + a.len() + tail.len());
    assert(t.len() == head.len() + b.len() + tail.len());
    assert(a =~= s.subrange(head.len() as int, (head.len() + a.len()) as int));
    assert(b =~= t.subrange(head.len() as int, (head.len() + b.len()) as int));
}

/// No two keys collide: a key tells both its scope and its role. So what is done under the keys of
/// one scope leaves the keys of every other scope alone, and the pointer to the active index is
/// never itself an index.
pub proof fn law_keys_do_not_collide(
    role1: KeyRole,
    scope1: Seq<char>,
    role2: KeyRole,
    scope2: Seq<char>,
)
    ensures
        key_of(role1, scope1) == key_of(role2, scope2) <==> role1 == role2 && scope1 == scope2,
{
    lemma_key_literals();
    let a = key_of(role1, scope1);
    let b = key_of(role2, scope2);
    if a == b {
        if role1 != role2 {
            assert(a[0] == b[0] && a[15] == b[15] && a[16] == b[16]);
        }
        assert(role1 == role2);
        let head = match role1 {
            KeyRole::Hash => HASH_PREFIX@,
            KeyRole::Active => "iii:state-index-active:"@,
            KeyRole::Phase => "iii:state-index-phase:"@,
            KeyRole::Cursor => "iii:state-index-cursor:"@,
            KeyRole::Target => "iii:state-index:"@,
            KeyRole::Verify => "iii:state-index-verify:"@,
        };
        let tail = if role1 is Target {
            ":v1"@
        } else {
            Seq::<char>::empty()
        };
        assert(a =~= head + scope1 + tail);
        assert(b =~= head + scope2 + tail);
        lemma_same_middle(head, scope1, scope2, tail);
    }
}

/// The keys of the index stay out of the key space that is scanned for scopes: of the keys of a
/// scope, the hash alone begins with the prefix of hashes.
pub proof fn law_only_hashes_are_scanned(role: KeyRole, scope: Seq<char>)
    ensures
        HASH_PREFIX@.is_prefix_of(key_of(role, scope)) <==> role is Hash,
{
    lemma_key_literals();
    let key = key_of(role, scope);
    if role is Hash {
        assert(key.subrange(0, HASH_PREFIX@.len() as int) =~= HASH_PREFIX@);
    } else {
        assert(key[0] == 'i');
        if HASH_PREFIX@.is_prefix_of(key) {
            assert(key.subrange(0, HASH_PREFIX@.len() as int)[0] == key[0]);
        }
    }
}

} // verus!
