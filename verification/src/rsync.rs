//! Synchronisation of the local replica with the remote catalog.

pub mod lock;
pub mod parser;
pub mod pass;

use vstd::prelude::*;
use crate::rsync::lock::distinct_names;
use crate::rsync::parser::{skin_views, SkinMeta, SkinMetaView};

verus! {

/// Whether some entry of a catalog bears `name`.
pub open spec fn has_name(catalog: Seq<SkinMetaView>, name: Seq<char>) -> bool {
    exists|j: int| 0 <= j < catalog.len() && #[trigger] catalog[j].name == name
}

/// What is left of a catalog when, of the entries that share a name, only
/// the first is kept.
pub open spec fn merged(all: Seq<SkinMetaView>) -> Seq<SkinMetaView>
    decreases all.len(),
{
    if all.len() == 0 {
        Seq::empty()
    } else if has_name(all.drop_last(), all.last().name) {
        merged(all.drop_last())
    } else {
        merged(all.drop_last()).push(all.last())
    }
}

/// The values of a list of catalogs, in order.
pub open spec fn catalog_views(sources: Seq<Vec<SkinMeta>>) -> Seq<Seq<SkinMetaView>> {
    sources.map_values(|c: Vec<SkinMeta>| skin_views(c@))
}

/// Merging loses no name and invents none.
pub proof fn lemma_merged_names(all: Seq<SkinMetaView>, name: Seq<char>)
    ensures
        has_name(merged(all), name) == has_name(all, name),
    decreases all.len(),
{
    if all.len() > 0 {
        let init = all.drop_last();
        let last = all.last();
        lemma_merged_names(init, name);
        lemma_merged_names(init, last.name);
        if has_name(all, name) {
            let j = choose|j: int| 0 <= j < all.len() && #[trigger] all[j].name == name;
            if j < init.len() {
                assert(init[j].name == name);
                let k = choose|k: int|
                    0 <= k < merged(init).len() && #[trigger] merged(init)[k].name == name;
                assert(merged(all)[k].name == name);
            } else if has_name(init, last.name) {
            } else {
                assert(merged(all)[merged(init).len() as int].name == name);
            }
        }
        if has_name(merged(all), name) {
            let k = choose|k: int|
                0 <= k < merged(all).len() && #[trigger] merged(all)[k].name == name;
            if k < merged(init).len() {
                assert(merged(init)[k].name == name);
                let j = choose|j: int| 0 <= j < init.len() && #[trigger] init[j].name == name;
                assert(all[j].name == name);
            } else {
                assert(all[all.len() - 1].name == name);
            }
        }
    }
}

/// Whether an entry with this name has been taken already.
fn holds_name(taken: &Vec<SkinMeta>, name: &String) -> (r: bool)
    ensures
        r == has_name(skin_views(taken@), name@),
{
    let mut i: usize = 0;
    while i < taken.len()
        invariant
            i <= taken.len(),
            forall|j: int| 0 <= j < i ==> (#[trigger] skin_views(taken@)[j]).name != name@,
        decreases taken.len() - i,
    {
        if taken[i].name == *name {
            assert(skin_views(taken@)[i as int].name == name@);
            return true;
        }
        i += 1;
    }
    false
}

/// Unites the catalogs of several sources. Where sources list the same
/// name, the entry of the earliest source is kept, and within one source the
/// first. The result keeps the order in which names first appear.
pub fn merge_catalogs(sources: &[Vec<SkinMeta>]) -> (r: Vec<SkinMeta>)
    ensures
        skin_views(r@) == merged(catalog_views(sources@).flatten()),
{
    let mut out: Vec<SkinMeta> = Vec::new();
    let ghost all = catalog_views(sources@);
    let mut s: usize = 0;
    proof {
        assert(all.take(0) =~= Seq::<Seq<SkinMetaView>>::empty());
        assert(skin_views(out@) =~= Seq::<SkinMetaView>::empty());
    }
    while s < sources.len()
        invariant
            s <= sources.len(),
            all == catalog_views(sources@),
            skin_views(out@) == merged(all.take(s as int).flatten()),
        decreases sources.len() - s,
    {
        let source = &sources[s];
        let ghost done = all.take(s as int).flatten();
        let ghost entries = skin_views(source@);
        let mut e: usize = 0;
        proof {
            assert(all[s as int] == entries);
            assert(done + entries.take(0) =~= done);
        }
        while e < source.len()
            invariant
                e <= source.len(),
                entries == skin_views(source@),
                skin_views(out@) == merged(done + entries.take(e as int)),
            decreases source.len() - e,
        {
            let skin = &source[e];
            let ghost seen = done + entries.take(e as int);
            let ghost before = skin_views(out@);
            proof {
                let next = done + entries.take(e + 1);
                assert(next.drop_last() =~= seen);
                assert(next.last() == skin@);
                lemma_merged_names(seen, skin@.name);
            }
            if !holds_name(&out, &skin.name) {
                out.push(skin.clone());
                proof {
                    assert(skin_views(out@) =~= before.push(skin@));
                }
            }
            e += 1;
        }
        proof {
            assert(entries.take(e as int) =~= entries);
            assert(all.take(s + 1) =~= all.take(s as int).push(entries));
            all.take(s as int).lemma_flatten_push(entries);
        }
        s += 1;
    }
    proof {
        assert(all.take(s as int) =~= all);
    }
    out
}

/// Whether no entry before the one at `i` bears its name.
pub open spec fn is_first_of_name(all: Seq<SkinMetaView>, i: int) -> bool {
    forall|j: int| 0 <= j < i ==> (#[trigger] all[j]).name != all[i].name
}

/// The first entry of each name is kept.
pub proof fn lemma_merged_keeps_first(all: Seq<SkinMetaView>, i: int)
    requires
        0 <= i < all.len(),
        is_first_of_name(all, i),
    ensures
        merged(all).contains(all[i]),
    decreases all.len(),
{
    let init = all.drop_last();
    if i < all.len() - 1 {
        assert(init[i] == all[i]);
        assert forall|j: int| 0 <= j < i implies (#[trigger] init[j]).name != init[i].name by {
            assert(init[j] == all[j]);
        }
        lemma_merged_keeps_first(init, i);
        let k = choose|k: int| 0 <= k < merged(init).len() && merged(init)[k] == all[i];
        assert(merged(all)[k] == all[i]);
    } else {
        if has_name(init, all.last().name) {
            let j = choose|j: int| 0 <= j < init.len() && #[trigger] init[j].name == all.last().name;
            assert(all[j] == init[j]);
            assert(false);
        }
        assert(merged(all)[merged(init).len() as int] == all[i]);
    }
}

/// Every entry that is kept is the first of its name.
pub proof fn lemma_merged_entry_is_first(all: Seq<SkinMetaView>, k: int) -> (i: int)
    requires
        0 <= k < merged(all).len(),
    ensures
        0 <= i < all.len(),
        all[i] == merged(all)[k],
        is_first_of_name(all, i),
    decreases all.len(),
{
    let init = all.drop_last();
    if k < merged(init).len() {
        let i = lemma_merged_entry_is_first(init, k);
        assert forall|j: int| 0 <= j < i implies (#[trigger] all[j]).name != all[i].name by {
            assert(init[j] == all[j]);
        }
        i
    } else {
        let i = all.len() - 1;
        assert forall|j: int| 0 <= j < i implies (#[trigger] all[j]).name != all[i].name by {
            if all[j].name == all[i].name {
                assert(init[j].name == all.last().name);
                assert(has_name(init, all.last().name));
            }
        }
        i
    }
}

/// No two entries of a merged catalog share a name.
pub proof fn lemma_merged_is_distinct(all: Seq<SkinMetaView>)
    ensures
        distinct_names(merged(all)),
    decreases all.len(),
{
    if all.len() > 0 {
        let init = all.drop_last();
        lemma_merged_is_distinct(init);
        lemma_merged_names(init, all.last().name);
        let out = merged(all);
        assert forall|a: int, b: int| 0 <= a < b < out.len() implies out[a].name != out[b].name by {
            if b < merged(init).len() {
                assert(merged(init)[a].name != merged(init)[b].name);
            } else if out[a].name == out[b].name {
                assert(merged(init)[a].name == all.last().name);
                assert(has_name(merged(init), all.last().name));
            }
        }
    }
}

/// First source wins: where a name stands in two catalogs, the merged
/// catalog has for it the entry of the first catalog, the earliest there,
/// and no other.
pub proof fn lemma_first_source_wins(
    first: Seq<SkinMetaView>,
    second: Seq<SkinMetaView>,
    i: int,
    j: int,
)
    requires
        0 <= i < first.len(),
        0 <= j < second.len(),
        first[i].name == second[j].name,
        is_first_of_name(first, i),
    ensures
        merged(first + second).contains(first[i]),
        forall|k: int|
            0 <= k < merged(first + second).len() && (#[trigger] merged(first + second)[k]).name
                == first[i].name ==> merged(first + second)[k] == first[i],
{
    let all = first + second;
    assert(all[i] == first[i]);
    assert forall|m: int| 0 <= m < i implies (#[trigger] all[m]).name != all[i].name by {
        assert(all[m] == first[m]);
    }
    lemma_merged_keeps_first(all, i);
    assert forall|k: int|
        0 <= k < merged(all).len() && (#[trigger] merged(all)[k]).name
            == first[i].name implies merged(all)[k] == first[i] by {
        let at = lemma_merged_entry_is_first(all, k);
        if at < i {
            assert(all[at].name != all[i].name);
        } else if at > i {
            assert(all[i].name != all[at].name);
        }
    }
}

/// The catalog page of the official skins.
pub const OFFICIAL_SOURCE: &'static str = "https://ddnet.org/skins/skin/";

/// The catalog page of the community's skins.
pub const COMMUNITY_SOURCE: &'static str = "https://ddnet.org/skins/skin/community/";

/// How long the scheduler waits between two passes, in seconds.
pub const SYNC_INTERVAL_SECS: u64 = 3600;

/// The catalog pages of a pass, in the order of their priority: the
/// official list goes before the community's.
pub fn sources() -> (r: Vec<&'static str>)
    ensures
        r@.len() == 2,
        r@[0]@ == OFFICIAL_SOURCE@,
        r@[1]@ == COMMUNITY_SOURCE@,
{
    let mut urls: Vec<&'static str> = Vec::new();
    urls.push(OFFICIAL_SOURCE);
    urls.push(COMMUNITY_SOURCE);
    urls
}

} // verus!
