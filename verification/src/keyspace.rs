//! The data in Redis, as far as the scripts read and write it.
//!
//! A key holds a string, a hash or a sorted set, and the commands find it to hold what they work
//! on. All members of a sorted set have the score 0 here, so it is a set of texts that is read in
//! their order.

use vstd::prelude::*;

verus! {

/// The data in Redis. What holds no fields or no members is as good as absent.
#[verifier::ext_equal]
pub struct Keyspace {
    pub strings: Map<Seq<char>, Seq<char>>,
    pub hashes: Map<Seq<char>, Map<Seq<char>, Seq<char>>>,
    pub zsets: Map<Seq<char>, Set<Seq<char>>>,
}

impl Keyspace {
    /// `GET`
    pub open spec fn text_at(self, key: Seq<char>) -> Option<Seq<char>> {
        if self.strings.contains_key(key) {
            Some(self.strings[key])
        } else {
            None
        }
    }

    /// `SET`
    pub open spec fn with_text(self, key: Seq<char>, text: Seq<char>) -> Keyspace {
        Keyspace { strings: self.strings.insert(key, text), ..self }
    }

    /// `DEL`
    pub open spec fn without(self, key: Seq<char>) -> Keyspace {
        Keyspace {
            strings: self.strings.remove(key),
            hashes: self.hashes.remove(key),
            zsets: self.zsets.remove(key),
        }
    }

    /// The fields of a hash with their values: `HGETALL`.
    pub open spec fn hash(self, key: Seq<char>) -> Map<Seq<char>, Seq<char>> {
        if self.hashes.contains_key(key) {
            self.hashes[key]
        } else {
            Map::empty()
        }
    }

    /// `HGET`
    pub open spec fn hget(self, key: Seq<char>, field: Seq<char>) -> Option<Seq<char>> {
        if self.hash(key).contains_key(field) {
            Some(self.hash(key)[field])
        } else {
            None
        }
    }

    /// `HSET`
    pub open spec fn hset(self, key: Seq<char>, field: Seq<char>, text: Seq<char>) -> Keyspace {
        Keyspace { hashes: self.hashes.insert(key, self.hash(key).insert(field, text)), ..self }
    }

    /// `HDEL`
    pub open spec fn hdel(self, key: Seq<char>, field: Seq<char>) -> Keyspace {
        Keyspace { hashes: self.hashes.insert(key, self.hash(key).remove(field)), ..self }
    }

    /// The members of a sorted set.
    pub open spec fn zset(self, key: Seq<char>) -> Set<Seq<char>> {
        if self.zsets.contains_key(key) {
            self.zsets[key]
        } else {
            Set::empty()
        }
    }

    /// `ZADD` of one member or more.
    pub open spec fn zadd(self, key: Seq<char>, members: Set<Seq<char>>) -> Keyspace {
        Keyspace { zsets: self.zsets.insert(key, self.zset(key).union(members)), ..self }
    }

    /// `ZREM`
    pub open spec fn zrem(self, key: Seq<char>, member: Seq<char>) -> Keyspace {
        Keyspace { zsets: self.zsets.insert(key, self.zset(key).remove(member)), ..self }
    }
}

/// The order of a sorted set with equal scores: `a` comes before `b`. Redis compares bytes, and in
/// UTF-8 the bytes of two texts compare as their characters do.
pub open spec fn before(a: Seq<char>, b: Seq<char>) -> bool
    decreases a.len(),
{
    if b.len() == 0 {
        false
    } else if a.len() == 0 {
        true
    } else if a[0] == b[0] {
        before(a.drop_first(), b.drop_first())
    } else {
        (a[0] as int) < (b[0] as int)
    }
}

/// The text lies behind an exclusive lower bound, where there is one.
pub open spec fn behind(lower: Option<Seq<char>>, text: Seq<char>) -> bool {
    match lower {
        Some(l) => before(l, text),
        None => true,
    }
}

/// `ZRANGEBYLEX` with an exclusive lower bound, no upper one, and a limit: `found` are the first
/// members behind the bound, in order, and all of them where they are fewer than the limit.
pub open spec fn zrangebylex(
    members: Set<Seq<char>>,
    lower: Option<Seq<char>>,
    limit: nat,
    found: Seq<Seq<char>>,
) -> bool {
    &&& found.len() <= limit
    &&& forall|i: int|
        0 <= i < found.len() ==> members.contains(#[trigger] found[i]) && behind(lower, found[i])
    &&& forall|i: int, j: int| 0 <= i < j < found.len() ==> before(found[i], found[j])
    &&& forall|m: Seq<char>|
        #![trigger members.contains(m)]
        members.contains(m) && behind(lower, m) && !found.contains(m) ==> found.len() == limit && (
        limit > 0 ==> before(found.last(), m))
}

/// Nothing comes before itself.
pub proof fn lemma_before_irreflexive(a: Seq<char>)
    ensures
        !before(a, a),
    decreases a.len(),
{
    if a.len() > 0 {
        lemma_before_irreflexive(a.drop_first());
    }
}

/// What comes before something comes before all that follows it.
pub proof fn lemma_before_transitive(a: Seq<char>, b: Seq<char>, c: Seq<char>)
    requires
        before(a, b),
        before(b, c),
    ensures
        before(a, c),
    decreases a.len(),
{
    if a.len() > 0 && a[0] == b[0] && b[0] == c[0] {
        lemma_before_transitive(a.drop_first(), b.drop_first(), c.drop_first());
    }
}

/// Of two texts that differ one comes before the other.
pub proof fn lemma_before_total(a: Seq<char>, b: Seq<char>)
    requires
        a != b,
    ensures
        before(a, b) || before(b, a),
    decreases a.len(),
{
    if a.len() == 0 || b.len() == 0 {
        assert(a.len() != b.len()) by {
            if a.len() == b.len() {
                assert(a =~= b);
            }
        }
    } else if a[0] == b[0] {
        assert(a.drop_first() != b.drop_first()) by {
            assert(a =~= seq![a[0]] + a.drop_first());
            assert(b =~= seq![b[0]] + b.drop_first());
        }
        lemma_before_total(a.drop_first(), b.drop_first());
    }
}

/// Some member comes before all others.
proof fn lemma_first_member(members: Set<Seq<char>>) -> (first: Seq<char>)
    requires
        members.finite(),
        members.len() > 0,
    ensures
        members.contains(first),
        forall|m: Seq<char>| #[trigger] members.contains(m) && m != first ==> before(first, m),
    decreases members.len(),
{
    let a = members.choose();
    let others = members.remove(a);
    if others.len() == 0 {
        assert forall|m: Seq<char>| #[trigger] members.contains(m) && m != a implies before(
            a,
            m,
        ) by {
            assert(others.contains(m));
        }
        a
    } else {
        let b = lemma_first_member(others);
        lemma_before_total(a, b);
        let first = if before(a, b) {
            a
        } else {
            b
        };
        assert forall|m: Seq<char>| #[trigger] members.contains(m) && m != first implies before(
            first,
            m,
        ) by {
            if m != a && m != b {
                assert(others.contains(m));
                if before(a, b) {
                    lemma_before_transitive(a, b, m);
                }
            }
        }
        first
    }
}

/// `ZRANGEBYLEX` can always be answered.
pub proof fn lemma_zrangebylex_answers(
    members: Set<Seq<char>>,
    lower: Option<Seq<char>>,
    limit: nat,
) -> (found: Seq<Seq<char>>)
    requires
        members.finite(),
    ensures
        zrangebylex(members, lower, limit, found),
    decreases limit,
{
    if limit == 0 {
        Seq::empty()
    } else {
        let fewer = lemma_zrangebylex_answers(members, lower, (limit - 1) as nat);
        let left = members.filter(|m: Seq<char>| behind(lower, m) && !fewer.contains(m));
        if left.len() == 0 {
            assert forall|m: Seq<char>| #[trigger] members.contains(m) && behind(lower, m) implies
                fewer.contains(m) by {
                if !fewer.contains(m) {
                    assert(left.contains(m));
                }
            }
            fewer
        } else {
            let first = lemma_first_member(left);
            let found = fewer.push(first);
            assert(members.contains(first));
            assert forall|i: int, j: int| 0 <= i < j < found.len() implies before(
                found[i],
                found[j],
            ) by {
                if j == fewer.len() && i < fewer.len() - 1 {
                    lemma_before_transitive(found[i], fewer.last(), first);
                }
            }
            assert forall|m: Seq<char>|
                #![trigger members.contains(m)]
                members.contains(m) && behind(lower, m) && !found.contains(m) implies found.len()
                == limit && before(found.last(), m) by {
                assert(found[fewer.len() as int] == first);
                assert(!fewer.contains(m)) by {
                    if fewer.contains(m) {
                        let i = choose|i: int| 0 <= i < fewer.len() && fewer[i] == m;
                        assert(found[i] == m);
                    }
                }
                assert(left.contains(m));
            }
            found
        }
    }
}

} // verus!
