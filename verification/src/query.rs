//! The two read operations: list every mod that has at least one release,
//! most recently released first, and look one mod up by exact name with its
//! releases ordered by version label, lexicographically descending.

use vstd::prelude::*;

use crate::store::LocalStore;
use crate::store::ModInfo;
use crate::store::ModInfoV;
use crate::store::VersionRow;
use crate::store::VersionRowV;
use crate::store::opt_view;
use crate::text::lex_le;
use crate::text::lemma_lex_le_total;
use crate::text::lemma_lex_le_trans;
use crate::text::str_eq;
use crate::text::str_lex_le;

verus! {

/// One line of the listing: the summary fields of a mod.
#[derive(Debug)]
pub struct ModListEntry {
    pub name: String,
    pub author: String,
    pub icon_src: Option<String>,
    pub short_desc: String,
}

/// Mathematical image of a `ModListEntry`.
#[verifier::ext_equal]
pub ghost struct ModListEntryV {
    pub name: Seq<char>,
    pub author: Seq<char>,
    pub icon_src: Option<Seq<char>>,
    pub short_desc: Seq<char>,
}

impl View for ModListEntry {
    type V = ModListEntryV;

    open spec fn view(&self) -> ModListEntryV {
        ModListEntryV {
            name: self.name@,
            author: self.author@,
            icon_src: opt_view(self.icon_src),
            short_desc: self.short_desc@,
        }
    }
}

/// The detail fields of a single mod.
#[derive(Debug)]
pub struct ModInfoData {
    pub name: String,
    pub author: String,
    pub icon_src: Option<String>,
    pub long_desc: String,
}

/// Mathematical image of a `ModInfoData`.
#[verifier::ext_equal]
pub ghost struct ModInfoDataV {
    pub name: Seq<char>,
    pub author: Seq<char>,
    pub icon_src: Option<Seq<char>>,
    pub long_desc: Seq<char>,
}

impl View for ModInfoData {
    type V = ModInfoDataV;

    open spec fn view(&self) -> ModInfoDataV {
        ModInfoDataV {
            name: self.name@,
            author: self.author@,
            icon_src: opt_view(self.icon_src),
            long_desc: self.long_desc@,
        }
    }
}

/// One release as the detail view shows it.
#[derive(Debug)]
pub struct VersionData {
    pub link: String,
    pub version: String,
    pub changelog: Option<String>,
}

/// Mathematical image of a `VersionData`.
#[verifier::ext_equal]
pub ghost struct VersionDataV {
    pub link: Seq<char>,
    pub version: Seq<char>,
    pub changelog: Option<Seq<char>>,
}

impl View for VersionData {
    type V = VersionDataV;

    open spec fn view(&self) -> VersionDataV {
        VersionDataV {
            link: self.link@,
            version: self.version@,
            changelog: opt_view(self.changelog),
        }
    }
}

/// A mod with its whole version history.
#[derive(Debug)]
pub struct ModDetails {
    pub mod_info: ModInfoData,
    pub versions: Vec<VersionData>,
}

/// Why the listing could not be produced.
#[derive(Clone, Copy, Debug, PartialEq, Eq, Structural)]
pub enum ListError {
    Unavailable,
}

/// Why a lookup returned no mod: the name is absent, or the store itself
/// could not answer.
#[derive(Clone, Copy, Debug, PartialEq, Eq, Structural)]
pub enum GetError {
    NotFound,
    Unavailable,
}

/// Whether some release belongs to the named mod.
pub open spec fn has_version(versions: Seq<VersionRowV>, name: Seq<char>) -> bool
    decreases versions.len(),
{
    if versions.len() == 0 {
        false
    } else {
        versions.last().name == name || has_version(versions.drop_last(), name)
    }
}

/// Rank of a mod with no release: below every real version id.
pub open spec fn no_version_rank() -> int {
    i64::MIN - 1
}

/// The largest version id among the named mod's releases, or
/// `no_version_rank()` if it has none; mods are listed by this rank.
pub open spec fn latest_id(versions: Seq<VersionRowV>, name: Seq<char>) -> int
    decreases versions.len(),
{
    if versions.len() == 0 {
        no_version_rank()
    } else {
        let rest = latest_id(versions.drop_last(), name);
        if versions.last().name == name && versions.last().id > rest {
            versions.last().id
        } else {
            rest
        }
    }
}

/// The summary line a record contributes to the listing.
pub open spec fn entry_of(m: ModInfoV) -> ModListEntryV {
    ModListEntryV {
        name: m.name,
        author: m.author,
        icon_src: m.icon_src,
        short_desc: m.short_desc,
    }
}

/// The listing before ordering: one summary per record that has at least
/// one release, in record order; records without releases are left out
/// (inner-join semantics).
pub open spec fn listing_of(infos: Seq<ModInfoV>, versions: Seq<VersionRowV>) -> Seq<
    ModListEntryV,
>
    decreases infos.len(),
{
    if infos.len() == 0 {
        Seq::empty()
    } else {
        let rest = listing_of(infos.drop_last(), versions);
        if has_version(versions, infos.last().name) {
            rest.push(entry_of(infos.last()))
        } else {
            rest
        }
    }
}

/// The first record carrying exactly the given name, if any.
pub open spec fn find_info(infos: Seq<ModInfoV>, name: Seq<char>) -> Option<ModInfoV>
    decreases infos.len(),
{
    if infos.len() == 0 {
        None
    } else if infos[0].name == name {
        Some(infos[0])
    } else {
        find_info(infos.drop_first(), name)
    }
}

/// The detail fields a record presents.
pub open spec fn info_data_of(m: ModInfoV) -> ModInfoDataV {
    ModInfoDataV { name: m.name, author: m.author, icon_src: m.icon_src, long_desc: m.long_desc }
}

/// The release view of one version row.
pub open spec fn version_data_of(v: VersionRowV) -> VersionDataV {
    VersionDataV { link: v.link, version: v.version, changelog: v.changelog }
}

/// The named mod's releases before ordering, in row order.
pub open spec fn versions_of(versions: Seq<VersionRowV>, name: Seq<char>) -> Seq<VersionDataV>
    decreases versions.len(),
{
    if versions.len() == 0 {
        Seq::empty()
    } else {
        let rest = versions_of(versions.drop_last(), name);
        if versions.last().name == name {
            rest.push(version_data_of(versions.last()))
        } else {
            rest
        }
    }
}

/// A fresh copy of a string, equal character for character.
fn copy_string(s: &String) -> (r: String)
    ensures
        r@ == s@,
{
    s.as_str().to_owned()
}

/// A fresh copy of an optional string.
fn copy_opt_string(s: &Option<String>) -> (r: Option<String>)
    ensures
        opt_view(r) == opt_view(*s),
{
    match s {
        Some(t) => Some(t.as_str().to_owned()),
        None => None,
    }
}

/// The summary line of one record, as fresh values.
fn make_entry(m: &ModInfo) -> (r: ModListEntry)
    ensures
        r@ == entry_of(m@),
{
    let r = ModListEntry {
        name: copy_string(&m.name),
        author: copy_string(&m.author),
        icon_src: copy_opt_string(&m.icon_src),
        short_desc: copy_string(&m.short_desc),
    };
    proof {
        assert(r@ =~= entry_of(m@));
    }
    r
}

/// The largest version id among the named mod's releases, or `None` if it
/// has none.
fn latest_for(versions: &Vec<VersionRow>, name: &String) -> (r: Option<i64>)
    ensures
        ({
            let vs = versions@.map_values(|v: VersionRow| v@);
            &&& (r is Some <==> has_version(vs, name@))
            &&& (r is Some ==> r->Some_0 as int == latest_id(vs, name@))
        }),
{
    let ghost vs = versions@.map_values(|v: VersionRow| v@);
    let mut found = false;
    let mut best: i64 = 0;
    let mut k: usize = 0;
    proof {
        assert(vs.take(0) =~= Seq::<VersionRowV>::empty());
    }
    while k < versions.len()
        invariant
            k <= versions.len(),
            vs == versions@.map_values(|v: VersionRow| v@),
            vs.len() == versions@.len(),
            found <==> has_version(vs.take(k as int), name@),
            found ==> best as int == latest_id(vs.take(k as int), name@),
            !found ==> latest_id(vs.take(k as int), name@) == no_version_rank(),
        decreases versions.len() - k,
    {
        let row = &versions[k];
        proof {
            assert(vs.take(k + 1).drop_last() =~= vs.take(k as int));
            assert(vs.take(k + 1).last() == vs[k as int]);
        }
        if str_eq(row.name.as_str(), name.as_str()) {
            if !found {
                found = true;
                best = row.id;
            } else if row.id > best {
                best = row.id;
            }
        }
        k = k + 1;
    }
    proof {
        assert(vs.take(vs.len() as int) =~= vs);
    }
    if found {
        Some(best)
    } else {
        None
    }
}

/// The images of a sequence of releases.
pub open spec fn version_views(s: Seq<VersionData>) -> Seq<VersionDataV> {
    s.map_values(|x: VersionData| x@)
}

/// The images of a sequence of summary lines.
pub open spec fn entry_views(s: Seq<ModListEntry>) -> Seq<ModListEntryV> {
    s.map_values(|x: ModListEntry| x@)
}

/// Reorders releases so that version labels descend lexicographically;
/// the result holds exactly the given releases.
fn sort_versions_desc(rows: Vec<VersionData>) -> (out: Vec<VersionData>)
    ensures
        out@.len() == rows@.len(),
        version_views(out@).to_multiset() == version_views(rows@).to_multiset(),
        forall|i: int, j: int|
            0 <= i < j < out@.len() ==> lex_le(out@[j].version@, out@[i].version@),
{
    broadcast use vstd::seq_lib::group_to_multiset_ensures;
    broadcast use vstd::multiset::group_multiset_axioms;

    let ghost orig = version_views(rows@);
    let mut remaining = rows;
    let mut out: Vec<VersionData> = Vec::new();
    proof {
        assert(version_views(out@) =~= Seq::<VersionDataV>::empty());
        assert(version_views(out@).to_multiset().add(version_views(remaining@).to_multiset())
            =~= orig.to_multiset());
    }
    while remaining.len() > 0
        invariant
            out@.len() + remaining@.len() == orig.len(),
            version_views(out@).to_multiset().add(version_views(remaining@).to_multiset())
                == orig.to_multiset(),
            forall|i: int, j: int|
                0 <= i < j < out@.len() ==> lex_le(out@[j].version@, out@[i].version@),
            forall|i: int, k: int|
                0 <= i < out@.len() && 0 <= k < remaining@.len() ==> lex_le(
                    remaining@[k].version@,
                    out@[i].version@,
                ),
        decreases remaining.len(),
    {
        let mut best: usize = 0;
        let mut m: usize = 1;
        proof {
            lemma_lex_le_total(remaining@[0].version@, remaining@[0].version@);
        }
        while m < remaining.len()
            invariant
                remaining@.len() > 0,
                best < m,
                m <= remaining@.len(),
                forall|k: int|
                    0 <= k < m ==> lex_le(remaining@[k].version@, remaining@[best as int].version@),
            decreases remaining.len() - m,
        {
            if !str_lex_le(remaining[m].version.as_str(), remaining[best].version.as_str()) {
                proof {
                    lemma_lex_le_total(
                        remaining@[m as int].version@,
                        remaining@[best as int].version@,
                    );
                    assert forall|k: int| 0 <= k < m implies lex_le(
                        remaining@[k].version@,
                        remaining@[m as int].version@,
                    ) by {
                        lemma_lex_le_trans(
                            remaining@[k].version@,
                            remaining@[best as int].version@,
                            remaining@[m as int].version@,
                        );
                    }
                    lemma_lex_le_total(remaining@[m as int].version@, remaining@[m as int].version@);
                }
                best = m;
            }
            m = m + 1;
        }
        let ghost before = remaining@;
        let ghost out_before = out@;
        let ghost vb = version_views(before);
        let chosen = remaining.remove(best);
        out.push(chosen);
        proof {
            vstd::seq_lib::to_multiset_contains(vb, chosen@);
            vstd::seq_lib::to_multiset_remove(vb, best as int);
            vstd::seq_lib::to_multiset_build(version_views(out_before), chosen@);
            assert(vb[best as int] == chosen@);
            assert(vb.contains(chosen@));
            assert(vb.to_multiset().count(chosen@) > 0);
            assert(version_views(remaining@) =~= vb.remove(best as int));
            assert(vb.remove(best as int).to_multiset() == vb.to_multiset().remove(chosen@));
            assert(version_views(out@) =~= version_views(out_before).push(chosen@));
            assert(version_views(out_before).push(chosen@).to_multiset() == version_views(
                out_before,
            ).to_multiset().insert(chosen@));
            assert(version_views(out@).to_multiset().add(version_views(remaining@).to_multiset())
                =~= orig.to_multiset());
            assert(out@[out@.len() - 1] == chosen);
        }
    }
    proof {
        assert(version_views(remaining@) =~= Seq::<VersionDataV>::empty());
        assert(version_views(out@).to_multiset() =~= orig.to_multiset());
    }
    out
}

/// A summary line paired with the rank it is ordered by: the largest
/// version id of its mod.
struct RankedEntry {
    latest: i64,
    entry: ModListEntry,
}

/// The summaries of a sequence of ranked lines, in order.
spec fn ranked_entry_views(s: Seq<RankedEntry>) -> Seq<ModListEntryV> {
    s.map_values(|x: RankedEntry| x.entry@)
}

/// Orders ranked lines by rank, descending, and strips the ranks; the
/// result holds exactly the given summaries, most recently released first.
fn extract_sorted(ranked: Vec<RankedEntry>, Ghost(vers): Ghost<Seq<VersionRowV>>) -> (out: Vec<
    ModListEntry,
>)
    requires
        forall|k: int|
            0 <= k < ranked@.len() ==> (#[trigger] ranked@[k]).latest as int == latest_id(
                vers,
                ranked@[k].entry.name@,
            ),
    ensures
        out@.len() == ranked@.len(),
        entry_views(out@).to_multiset() == ranked_entry_views(ranked@).to_multiset(),
        forall|i: int, j: int|
            0 <= i < j < out@.len() ==> latest_id(vers, out@[j].name@) <= latest_id(
                vers,
                out@[i].name@,
            ),
{
    broadcast use vstd::seq_lib::group_to_multiset_ensures;
    broadcast use vstd::multiset::group_multiset_axioms;

    let ghost orig = ranked_entry_views(ranked@);
    let mut remaining = ranked;
    let mut out: Vec<ModListEntry> = Vec::new();
    proof {
        assert(entry_views(out@) =~= Seq::<ModListEntryV>::empty());
        assert(entry_views(out@).to_multiset().add(ranked_entry_views(remaining@).to_multiset())
            =~= orig.to_multiset());
    }
    while remaining.len() > 0
        invariant
            out@.len() + remaining@.len() == orig.len(),
            forall|k: int|
                0 <= k < remaining@.len() ==> (#[trigger] remaining@[k]).latest as int == latest_id(
                    vers,
                    remaining@[k].entry.name@,
                ),
            entry_views(out@).to_multiset().add(ranked_entry_views(remaining@).to_multiset())
                == orig.to_multiset(),
            forall|i: int, j: int|
                0 <= i < j < out@.len() ==> latest_id(vers, out@[j].name@) <= latest_id(
                    vers,
                    out@[i].name@,
                ),
            forall|i: int, k: int|
                0 <= i < out@.len() && 0 <= k < remaining@.len() ==> (#[trigger] remaining@[k]).latest
                    as int <= latest_id(vers, (#[trigger] out@[i]).name@),
        decreases remaining.len(),
    {
        let mut best: usize = 0;
        let mut m: usize = 1;
        while m < remaining.len()
            invariant
                remaining@.len() > 0,
                best < m,
                m <= remaining@.len(),
                forall|k: int|
                    0 <= k < m ==> (#[trigger] remaining@[k]).latest <= remaining@[best as int].latest,
            decreases remaining.len() - m,
        {
            if remaining[m].latest > remaining[best].latest {
                best = m;
            }
            m = m + 1;
        }
        let ghost before = remaining@;
        let ghost out_before = out@;
        let ghost rb = ranked_entry_views(before);
        let chosen = remaining.remove(best);
        out.push(chosen.entry);
        proof {
            vstd::seq_lib::to_multiset_contains(rb, chosen.entry@);
            vstd::seq_lib::to_multiset_remove(rb, best as int);
            vstd::seq_lib::to_multiset_build(entry_views(out_before), chosen.entry@);
            assert(rb[best as int] == chosen.entry@);
            assert(rb.contains(chosen.entry@));
            assert(rb.to_multiset().count(chosen.entry@) > 0);
            assert(ranked_entry_views(remaining@) =~= rb.remove(best as int));
            assert(rb.remove(best as int).to_multiset() == rb.to_multiset().remove(chosen.entry@));
            assert(entry_views(out@) =~= entry_views(out_before).push(chosen.entry@));
            assert(entry_views(out_before).push(chosen.entry@).to_multiset() == entry_views(
                out_before,
            ).to_multiset().insert(chosen.entry@));
            assert(entry_views(out@).to_multiset().add(ranked_entry_views(remaining@).to_multiset())
                =~= orig.to_multiset());
            assert(out@[out@.len() - 1] == chosen.entry);
            assert(latest_id(vers, out@[out@.len() - 1].name@) == chosen.latest as int);
        }
    }
    proof {
        assert(ranked_entry_views(remaining@) =~= Seq::<ModListEntryV>::empty());
        assert(entry_views(out@).to_multiset() =~= orig.to_multiset());
    }
    out
}

/// Lists every mod that has at least one release, one summary line per
/// record, ordered by the largest version id of the mod, descending —
/// that is, most recently released first. Mods without releases are left
/// out. Fails with `Unavailable` exactly when either table is missing.
pub fn list_mods(store: &LocalStore) -> (r: Result<Vec<ModListEntry>, ListError>)
    ensures
        !store@.schema_ok() ==> (r matches Err(e) && e == ListError::Unavailable),
        store@.schema_ok() ==> ({
            let infos = store@.info->Some_0;
            let vs = store@.versions->Some_0;
            &&& r is Ok
            &&& entry_views(r->Ok_0@).to_multiset() == listing_of(infos, vs).to_multiset()
            &&& forall|i: int, j: int|
                0 <= i < j < r->Ok_0@.len() ==> latest_id(vs, r->Ok_0@[j].name@) <= latest_id(
                    vs,
                    r->Ok_0@[i].name@,
                )
        }),
{
    if !store.info_present || !store.versions_present {
        return Err(ListError::Unavailable);
    }
    let ghost infos = store@.info->Some_0;
    let ghost vs = store@.versions->Some_0;
    let mut ranked: Vec<RankedEntry> = Vec::new();
    let mut i: usize = 0;
    proof {
        assert(infos.take(0) =~= Seq::<ModInfoV>::empty());
        assert(ranked_entry_views(ranked@) =~= listing_of(infos.take(0), vs));
    }
    while i < store.info_rows.len()
        invariant
            i <= store.info_rows.len(),
            store@.info is Some,
            store@.versions is Some,
            infos == store@.info->Some_0,
            vs == store@.versions->Some_0,
            infos.len() == store.info_rows@.len(),
            infos == store.info_rows@.map_values(|m: ModInfo| m@),
            vs == store.version_rows@.map_values(|v: VersionRow| v@),
            ranked_entry_views(ranked@) == listing_of(infos.take(i as int), vs),
            forall|k: int|
                0 <= k < ranked@.len() ==> (#[trigger] ranked@[k]).latest as int == latest_id(
                    vs,
                    ranked@[k].entry.name@,
                ),
        decreases store.info_rows.len() - i,
    {
        let row = &store.info_rows[i];
        proof {
            assert(infos.take(i + 1).drop_last() =~= infos.take(i as int));
            assert(infos.take(i + 1).last() == infos[i as int]);
        }
        match latest_for(&store.version_rows, &row.name) {
            Some(latest) => {
                let ghost before = ranked@;
                ranked.push(RankedEntry { latest, entry: make_entry(row) });
                proof {
                    assert(ranked@[ranked@.len() - 1].entry@ =~= entry_of(infos[i as int]));
                    assert(ranked_entry_views(ranked@) =~= ranked_entry_views(before).push(
                        entry_of(infos[i as int]),
                    ));
                }
            },
            None => {},
        }
        i = i + 1;
    }
    proof {
        assert(infos.take(infos.len() as int) =~= infos);
    }
    Ok(extract_sorted(ranked, Ghost(vs)))
}

/// Index of the first record with exactly the given name.
fn find_info_index(rows: &Vec<ModInfo>, name: &str) -> (r: Option<usize>)
    ensures
        ({
            let iv = rows@.map_values(|m: ModInfo| m@);
            &&& (r is Some <==> find_info(iv, name@) is Some)
            &&& (r is Some ==> r->Some_0 < rows@.len() && iv[r->Some_0 as int] == find_info(
                iv,
                name@,
            )->Some_0)
        }),
{
    let ghost iv = rows@.map_values(|m: ModInfo| m@);
    let mut i: usize = 0;
    proof {
        assert(iv.skip(0) =~= iv);
    }
    while i < rows.len()
        invariant
            i <= rows.len(),
            iv == rows@.map_values(|m: ModInfo| m@),
            iv.len() == rows@.len(),
            find_info(iv, name@) == find_info(iv.skip(i as int), name@),
        decreases rows.len() - i,
    {
        proof {
            assert(iv.skip(i as int)[0] == iv[i as int]);
        }
        if str_eq(rows[i].name.as_str(), name) {
            return Some(i);
        }
        proof {
            assert(iv.skip(i as int).drop_first() =~= iv.skip(i + 1));
        }
        i = i + 1;
    }
    proof {
        assert(iv.skip(iv.len() as int).len() == 0);
    }
    None
}

/// Looks a mod up by exact name.
///
/// The lookup fails with `Unavailable` when the info table is missing, or
/// when the name was found but the versions table is missing; it fails
/// with `NotFound` exactly when the info table exists and holds no record
/// of that name. On success it returns the first record of that name
/// together with every release of that name, ordered by version label,
/// lexicographically descending.
pub fn get_mod(store: &LocalStore, name: &str) -> (r: Result<ModDetails, GetError>)
    ensures
        !(store@.info is Some) ==> (r matches Err(e) && e == GetError::Unavailable),
        store@.info is Some && find_info(store@.info->Some_0, name@) is None ==> (r matches Err(e)
            && e == GetError::NotFound),
        store@.info is Some && find_info(store@.info->Some_0, name@) is Some && !(store@.versions
            is Some) ==> (r matches Err(e) && e == GetError::Unavailable),
        store@.info is Some && find_info(store@.info->Some_0, name@) is Some && store@.versions
            is Some ==> ({
            let m = find_info(store@.info->Some_0, name@)->Some_0;
            let vs = store@.versions->Some_0;
            &&& r is Ok
            &&& r->Ok_0.mod_info@ == info_data_of(m)
            &&& version_views(r->Ok_0.versions@).to_multiset() == versions_of(vs, name@).to_multiset()
            &&& forall|i: int, j: int|
                0 <= i < j < r->Ok_0.versions@.len() ==> lex_le(
                    r->Ok_0.versions@[j].version@,
                    r->Ok_0.versions@[i].version@,
                )
        }),
{
    if !store.info_present {
        return Err(GetError::Unavailable);
    }
    let idx = match find_info_index(&store.info_rows, name) {
        None => {
            return Err(GetError::NotFound);
        },
        Some(i) => i,
    };
    if !store.versions_present {
        return Err(GetError::Unavailable);
    }
    let m = &store.info_rows[idx];
    let data = ModInfoData {
        name: copy_string(&m.name),
        author: copy_string(&m.author),
        icon_src: copy_opt_string(&m.icon_src),
        long_desc: copy_string(&m.long_desc),
    };
    proof {
        assert(data@ =~= info_data_of(find_info(store@.info->Some_0, name@)->Some_0));
    }
    let ghost vv = store@.versions->Some_0;
    let mut vlist: Vec<VersionData> = Vec::new();
    let mut k: usize = 0;
    proof {
        assert(vv.take(0) =~= Seq::<VersionRowV>::empty());
        assert(version_views(vlist@) =~= versions_of(vv.take(0), name@));
    }
    while k < store.version_rows.len()
        invariant
            k <= store.version_rows.len(),
            store@.versions is Some,
            vv == store@.versions->Some_0,
            vv.len() == store.version_rows@.len(),
            vv == store.version_rows@.map_values(|v: VersionRow| v@),
            version_views(vlist@) == versions_of(vv.take(k as int), name@),
        decreases store.version_rows.len() - k,
    {
        let row = &store.version_rows[k];
        proof {
            assert(vv.take(k + 1).drop_last() =~= vv.take(k as int));
            assert(vv.take(k + 1).last() == vv[k as int]);
        }
        if str_eq(row.name.as_str(), name) {
            let ghost before = vlist@;
            vlist.push(
                VersionData {
                    link: copy_string(&row.link),
                    version: copy_string(&row.version),
                    changelog: copy_opt_string(&row.changelog),
                },
            );
            proof {
                assert(vlist@[vlist@.len() - 1]@ =~= version_data_of(vv[k as int]));
                assert(version_views(vlist@) =~= version_views(before).push(
                    version_data_of(vv[k as int]),
                ));
            }
        }
        k = k + 1;
    }
    proof {
        assert(vv.take(vv.len() as int) =~= vv);
    }
    let sorted = sort_versions_desc(vlist);
    Ok(ModDetails { mod_info: data, versions: sorted })
}

} // verus!
