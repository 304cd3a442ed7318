//! The whitelist of preferences: which keys are synchronised.

use vstd::prelude::*;
use crate::events::types::{PrefValue, PrefValueView};
use crate::table::{has_key, index_of_key, keys_unique, Plain, StringMap};
use crate::text::to_chars;

verus! {

/// True when a key falls under a pattern: a pattern that ends in `*`
/// covers every key that begins with the rest of it; any other pattern
/// covers the key that equals it.
pub open spec fn pattern_covers(pattern: Seq<char>, key: Seq<char>) -> bool {
    if pattern.len() > 0 && pattern.last() == '*' {
        pattern.drop_last().is_prefix_of(key)
    } else {
        pattern == key
    }
}

/// True when some pattern of the whitelist covers the key.
pub open spec fn whitelisted(whitelist: Seq<Seq<char>>, key: Seq<char>) -> bool {
    exists|i: int| 0 <= i < whitelist.len() && pattern_covers(#[trigger] whitelist[i], key)
}

/// The entries whose key the whitelist covers, in order.
pub open spec fn whitelisted_entries(
    entries: Seq<(Seq<char>, PrefValueView)>,
    whitelist: Seq<Seq<char>>,
) -> Seq<(Seq<char>, PrefValueView)>
    decreases entries.len(),
{
    if entries.len() == 0 {
        Seq::empty()
    } else {
        let rest = whitelisted_entries(entries.drop_last(), whitelist);
        if whitelisted(whitelist, entries.last().0) {
            rest.push(entries.last())
        } else {
            rest
        }
    }
}

/// True when the first `n` characters of both texts agree.
fn same_head(a: &Vec<char>, b: &Vec<char>, n: usize) -> (r: bool)
    requires
        n <= a@.len(),
        n <= b@.len(),
    ensures
        r == (a@.subrange(0, n as int) == b@.subrange(0, n as int)),
{
    let mut i: usize = 0;
    while i < n
        invariant
            i <= n,
            n <= a@.len(),
            n <= b@.len(),
            forall|j: int| 0 <= j < i ==> a@[j] == b@[j],
        decreases n - i,
    {
        if a[i] != b[i] {
            proof {
                assert(a@.subrange(0, n as int)[i as int] != b@.subrange(0, n as int)[i as int]);
            }
            return false;
        }
        i += 1;
    }
    proof {
        assert(a@.subrange(0, n as int) =~= b@.subrange(0, n as int));
    }
    true
}

/// True when the pattern covers the key.
pub fn pattern_matches(pattern: &str, key: &str) -> (r: bool)
    ensures
        r == pattern_covers(pattern@, key@),
{
    let p = to_chars(pattern);
    let k = to_chars(key);
    let n = p.len();
    if n > 0 && p[n - 1] == '*' {
        if k.len() < n - 1 {
            return false;
        }
        let r = same_head(&p, &k, n - 1);
        proof {
            assert(p@.drop_last() =~= p@.subrange(0, n - 1));
        }
        r
    } else {
        if k.len() != n {
            return false;
        }
        let r = same_head(&p, &k, n);
        proof {
            assert(p@.subrange(0, n as int) =~= p@);
            assert(k@.subrange(0, n as int) =~= k@);
        }
        r
    }
}

/// True when some pattern of the whitelist covers the key.
pub fn is_whitelisted(whitelist: &[String], key: &str) -> (r: bool)
    ensures
        r == whitelisted(whitelist.deep_view(), key@),
{
    let mut i: usize = 0;
    while i < whitelist.len()
        invariant
            i <= whitelist.len(),
            forall|j: int| 0 <= j < i ==> !pattern_covers(#[trigger] whitelist.deep_view()[j], key@),
        decreases whitelist.len() - i,
    {
        if pattern_matches(whitelist[i].as_str(), key) {
            proof {
                assert(pattern_covers(whitelist.deep_view()[i as int], key@));
            }
            return true;
        }
        i += 1;
    }
    false
}

/// Keeps the preferences whose key the whitelist covers.
pub fn whitelisted_prefs(prefs: &StringMap<PrefValue>, whitelist: &[String]) -> (kept: StringMap<
    PrefValue,
>)
    ensures
        kept.entries() == whitelisted_entries(prefs.entries(), whitelist.deep_view()),
{
    let n = prefs.len();
    let ghost all = prefs.entries();
    let mut kept: StringMap<PrefValue> = StringMap::new();
    let mut i: usize = 0;
    proof {
        assert(all.subrange(0, 0) =~= Seq::<(Seq<char>, PrefValueView)>::empty());
    }
    while i < n
        invariant
            i <= n,
            n == all.len(),
            all == prefs.entries(),
            keys_unique(all),
            kept.entries() == whitelisted_entries(all.subrange(0, i as int), whitelist.deep_view()),
            forall|j: int|
                0 <= j < kept.entries().len() ==> exists|k: int|
                    0 <= k < i && all[k].0 == (#[trigger] kept.entries()[j]).0,
        decreases n - i,
    {
        let key = prefs.key_at(i);
        let value = prefs.value_at(i);
        proof {
            assert(all.subrange(0, i + 1).drop_last() =~= all.subrange(0, i as int));
            assert(all.subrange(0, i + 1).last() == (key@, value@));
        }
        let ghost before = kept.entries();
        if is_whitelisted(whitelist, key.as_str()) {
            proof {
                if has_key(before, key@) {
                    let j = index_of_key(before, key@);
                    let k = choose|k: int| 0 <= k < i && all[k].0 == before[j].0;
                    assert(all[k].0 != all[i as int].0);
                }
            }
            kept.insert(key.clone(), value.duplicate());
            proof {
                assert(kept.entries() =~= before.push((key@, value@)));
                assert forall|j: int| 0 <= j < kept.entries().len() implies exists|k: int|
                    0 <= k < i + 1 && all[k].0 == (#[trigger] kept.entries()[j]).0 by {
                    if j < before.len() {
                        let k = choose|k: int| 0 <= k < i && all[k].0 == before[j].0;
                        assert(all[k].0 == kept.entries()[j].0);
                    } else {
                        assert(all[i as int].0 == kept.entries()[j].0);
                    }
                }
            }
        } else {
            proof {
                assert forall|j: int| 0 <= j < kept.entries().len() implies exists|k: int|
                    0 <= k < i + 1 && all[k].0 == (#[trigger] kept.entries()[j]).0 by {
                    let k = choose|k: int| 0 <= k < i && all[k].0 == before[j].0;
                    assert(all[k].0 == kept.entries()[j].0);
                }
            }
        }
        i += 1;
    }
    proof {
        assert(all.subrange(0, n as int) =~= all);
    }
    kept
}

} // verus!
