//! The local replica: two tables, each either absent or holding a sequence
//! of rows. The replica is a disposable cache of the remote store, so its
//! whole life is: create the schema at startup, answer reads, and be dropped
//! and repopulated wholesale by an authorized sync.

use vstd::prelude::*;

verus! {

/// One catalog record: a named mod and its descriptive fields.
pub struct ModInfo {
    pub name: String,
    pub author: String,
    pub icon_src: Option<String>,
    pub short_desc: String,
    pub long_desc: String,
}

/// One release of a mod, keyed back to its record by name (by convention,
/// not enforced). `id` grows with insertion order and only serves to rank
/// mods by how recently they gained a release.
pub struct VersionRow {
    pub id: i64,
    pub name: String,
    pub link: String,
    pub version: String,
    pub changelog: Option<String>,
}

/// Mathematical image of a `ModInfo`.
#[verifier::ext_equal]
pub ghost struct ModInfoV {
    pub name: Seq<char>,
    pub author: Seq<char>,
    pub icon_src: Option<Seq<char>>,
    pub short_desc: Seq<char>,
    pub long_desc: Seq<char>,
}

/// Mathematical image of a `VersionRow`.
#[verifier::ext_equal]
pub ghost struct VersionRowV {
    pub id: int,
    pub name: Seq<char>,
    pub link: Seq<char>,
    pub version: Seq<char>,
    pub changelog: Option<Seq<char>>,
}

/// View of an optional string as an optional character sequence.
pub open spec fn opt_view(s: Option<String>) -> Option<Seq<char>> {
    match s {
        Some(t) => Some(t@),
        None => None,
    }
}

impl View for ModInfo {
    type V = ModInfoV;

    open spec fn view(&self) -> ModInfoV {
        ModInfoV {
            name: self.name@,
            author: self.author@,
            icon_src: opt_view(self.icon_src),
            short_desc: self.short_desc@,
            long_desc: self.long_desc@,
        }
    }
}

impl View for VersionRow {
    type V = VersionRowV;

    open spec fn view(&self) -> VersionRowV {
        VersionRowV {
            id: self.id as int,
            name: self.name@,
            link: self.link@,
            version: self.version@,
            changelog: opt_view(self.changelog),
        }
    }
}

/// Mathematical image of the whole local replica: each table is `None`
/// while dropped and `Some` of its rows while it exists.
#[verifier::ext_equal]
pub ghost struct StoreV {
    pub info: Option<Seq<ModInfoV>>,
    pub versions: Option<Seq<VersionRowV>>,
}

impl StoreV {
    /// Both tables exist.
    pub open spec fn schema_ok(self) -> bool {
        self.info is Some && self.versions is Some
    }

    /// Both tables exist and hold no rows.
    pub open spec fn is_empty_schema(self) -> bool {
        self.info == Some(Seq::<ModInfoV>::empty()) && self.versions == Some(
            Seq::<VersionRowV>::empty(),
        )
    }
}

/// Schema setup: create each table that does not already exist, leaving
/// the rows of an existing table untouched.
pub open spec fn ensure_schema_v(s: StoreV) -> StoreV {
    StoreV {
        info: if s.info is Some {
            s.info
        } else {
            Some(Seq::<ModInfoV>::empty())
        },
        versions: if s.versions is Some {
            s.versions
        } else {
            Some(Seq::<VersionRowV>::empty())
        },
    }
}

/// Dropping both tables.
pub open spec fn drop_tables_v(s: StoreV) -> StoreV {
    StoreV { info: None, versions: None }
}

/// Schema setup is idempotent and never alters data already present:
/// a second setup in sequence is a no-op, and a setup on a store whose
/// schema already exists changes nothing at all.
pub proof fn ensure_schema_idempotent(s: StoreV)
    ensures
        ensure_schema_v(ensure_schema_v(s)) == ensure_schema_v(s),
        s.schema_ok() ==> ensure_schema_v(s) == s,
{
    assert(ensure_schema_v(ensure_schema_v(s)) =~= ensure_schema_v(s));
    if s.schema_ok() {
        assert(ensure_schema_v(s) =~= s);
    }
}

/// The local replica, held as plain values. A table whose `*_present`
/// flag is false is dropped; its row vector is then meaningless and the
/// view abstracts it away.
pub struct LocalStore {
    pub info_present: bool,
    pub info_rows: Vec<ModInfo>,
    pub versions_present: bool,
    pub version_rows: Vec<VersionRow>,
}

impl View for LocalStore {
    type V = StoreV;

    open spec fn view(&self) -> StoreV {
        StoreV {
            info: if self.info_present {
                Some(self.info_rows@.map_values(|m: ModInfo| m@))
            } else {
                None
            },
            versions: if self.versions_present {
                Some(self.version_rows@.map_values(|v: VersionRow| v@))
            } else {
                None
            },
        }
    }
}

impl LocalStore {
    /// A freshly created store file: no tables yet.
    pub fn new() -> (s: LocalStore)
        ensures
            s@ == (StoreV { info: None, versions: None }),
    {
        LocalStore {
            info_present: false,
            info_rows: Vec::new(),
            versions_present: false,
            version_rows: Vec::new(),
        }
    }

    /// Creates each table that does not already exist; rows of existing
    /// tables survive unchanged. Safe both at startup and right after a
    /// drop mid-sync.
    pub fn ensure_schema(&mut self)
        ensures
            final(self)@ == ensure_schema_v(old(self)@),
    {
        if !self.info_present {
            self.info_present = true;
            self.info_rows = Vec::new();
        }
        if !self.versions_present {
            self.versions_present = true;
            self.version_rows = Vec::new();
        }
        proof {
            assert(final(self)@ =~= ensure_schema_v(old(self)@));
        }
    }

    /// Drops both tables, rows and all.
    pub fn drop_tables(&mut self)
        ensures
            final(self)@ == drop_tables_v(old(self)@),
    {
        self.info_present = false;
        self.info_rows = Vec::new();
        self.versions_present = false;
        self.version_rows = Vec::new();
    }

    /// Appends one record to the info table.
    pub fn insert_info(&mut self, row: ModInfo)
        requires
            old(self)@.info is Some,
        ensures
            final(self)@.info == Some(old(self)@.info->Some_0.push(row@)),
            final(self)@.versions == old(self)@.versions,
    {
        self.info_rows.push(row);
        proof {
            assert(final(self).info_rows@.map_values(|m: ModInfo| m@) =~= old(
                self,
            ).info_rows@.map_values(|m: ModInfo| m@).push(row@));
        }
    }

    /// Appends one release to the versions table.
    pub fn insert_version(&mut self, row: VersionRow)
        requires
            old(self)@.versions is Some,
        ensures
            final(self)@.versions == Some(old(self)@.versions->Some_0.push(row@)),
            final(self)@.info == old(self)@.info,
    {
        self.version_rows.push(row);
        proof {
            assert(final(self).version_rows@.map_values(|v: VersionRow| v@) =~= old(
                self,
            ).version_rows@.map_values(|v: VersionRow| v@).push(row@));
        }
    }
}

} // verus!
