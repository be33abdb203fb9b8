//! The database as the server sees it: which column families it holds, how
//! it is opened, and what a point lookup answers.
use vstd::prelude::*;
use crate::config::{config_is_valid, Config, Mode};
use crate::text::str_debug_text;
use crate::text::str_debug;

verus! {

/// A failure reported by RocksDB, carried as its text.
#[derive(Debug, Clone)]
pub struct RocksDbError {
    pub message: String,
}

/// Why a lookup gave no answer.
#[derive(Debug)]
pub enum GetError {
    /// The database has no column family of that name.
    UnknownColumnFamily { requested: String, available: Vec<String> },
    /// RocksDB failed to read.
    RocksDb(RocksDbError),
}

/// The text views of a list of names.
pub open spec fn names_view(names: Seq<String>) -> Seq<Seq<char>> {
    names.map_values(|s: String| s@)
}

/// The `Debug` texts of the strings, joined by `", "`.
pub open spec fn debug_items(names: Seq<Seq<char>>) -> Seq<char>
    decreases names.len(),
{
    if names.len() == 0 {
        seq![]
    } else if names.len() == 1 {
        str_debug_text(names[0])
    } else {
        debug_items(names.drop_last()) + ", "@ + str_debug_text(names.last())
    }
}

/// What `format!("{:?}", names)` writes for a list of strings: the items'
/// `Debug` texts, joined by `", "`, in square brackets.
pub open spec fn debug_list_text(names: Seq<Seq<char>>) -> Seq<char> {
    "["@ + debug_items(names) + "]"@
}

/// Writes the `Debug` text of a list of strings.
pub fn debug_list(names: &Vec<String>) -> (r: String)
    ensures
        r@ == debug_list_text(names_view(names@)),
{
    let mut r = String::from_str("[");
    let mut i: usize = 0;
    while i < names.len()
        invariant
            i <= names@.len(),
            r@ == "["@ + debug_items(names_view(names@.subrange(0, i as int))),
        decreases names@.len() - i,
    {
        let ghost before = names_view(names@.subrange(0, i as int));
        let ghost after = names_view(names@.subrange(0, i + 1));
        assert(after.drop_last() =~= before);
        assert(after.last() == names@[i as int]@);
        if i > 0 {
            r.append(", ");
        }
        let shown = str_debug(names[i].as_str());
        r.append(shown.as_str());
        proof {
            if i == 0 {
                assert(before =~= Seq::<Seq<char>>::empty());
                assert(after.len() == 1);
            }
        }
        i = i + 1;
    }
    assert(names@.subrange(0, i as int) =~= names@);
    r.append("]");
    r
}

/// The text of the error for a column family that the database lacks.
pub open spec fn unknown_cf_text(requested: Seq<char>, available: Seq<Seq<char>>) -> Seq<char> {
    "unknown column family '"@ + requested
        + "'; call list_column_families to see available CFs (currently: "@ + debug_list_text(
        available,
    ) + ")"@
}

impl GetError {
    /// The text of the error, as the caller sees it.
    pub open spec fn text(&self) -> Seq<char> {
        match self {
            GetError::UnknownColumnFamily { requested, available } => unknown_cf_text(
                requested@,
                names_view(available@),
            ),
            GetError::RocksDb(e) => "rocksdb error: "@ + e.message@,
        }
    }

    pub fn message(&self) -> (m: String)
        ensures
            m@ == self.text(),
    {
        match self {
            GetError::UnknownColumnFamily { requested, available } => {
                let mut m = String::from_str("unknown column family '");
                m.append(requested.as_str());
                m.append("'; call list_column_families to see available CFs (currently: ");
                let listed = debug_list(available);
                m.append(listed.as_str());
                m.append(")");
                m
            },
            GetError::RocksDb(e) => {
                let mut m = String::from_str("rocksdb error: ");
                m.append(e.message.as_str());
                m
            },
        }
    }
}

/// The open database: the column families it was opened with, and its mode.
pub struct Database {
    column_families: Vec<String>,
    mode: Mode,
}

impl Database {
    pub closed spec fn cf_names(&self) -> Seq<Seq<char>> {
        names_view(self.column_families@)
    }

    pub closed spec fn spec_mode(&self) -> Mode {
        self.mode
    }

    /// The database opened with these column families, in this mode.
    pub fn new(column_families: Vec<String>, mode: Mode) -> (d: Database)
        ensures
            d.cf_names() == names_view(column_families@),
            d.spec_mode() == mode,
    {
        Database { column_families, mode }
    }

    /// Every column family, in the order RocksDB listed them.
    pub fn column_families(&self) -> (r: &[String])
        ensures
            names_view(r@) == self.cf_names(),
    {
        self.column_families.as_slice()
    }

    pub fn mode(&self) -> (r: Mode)
        ensures
            r == self.spec_mode(),
    {
        self.mode
    }

    /// Answers a point lookup in column family `cf_name`, given what the
    /// database returned for it: `None` when it has no such column family,
    /// else the read's own result. A missing column family is an error that
    /// names it and lists the available ones; a missing key is no error.
    pub fn get(&self, cf_name: &str, read: Option<Result<Option<Vec<u8>>, RocksDbError>>) -> (r:
        Result<Option<Vec<u8>>, GetError>)
        ensures
            match read {
                None => r matches Err(GetError::UnknownColumnFamily { requested, available })
                    && requested@ == cf_name@ && names_view(available@) == self.cf_names(),
                Some(Err(e)) => r == Err::<Option<Vec<u8>>, GetError>(GetError::RocksDb(e)),
                Some(Ok(v)) => r == Ok::<Option<Vec<u8>>, GetError>(v),
            },
    {
        match read {
            None => {
                let available = self.column_families.clone();
                assert(names_view(available@) =~= names_view(self.column_families@)) by {
                    assert forall|i: int| 0 <= i < available@.len() implies available@[i]@
                        == self.column_families@[i]@ by {
                        assert(cloned::<String>(self.column_families[i], available[i]));
                    }
                }
                Err(GetError::UnknownColumnFamily { requested: cf_name.to_owned(), available })
            },
            Some(Err(e)) => Err(GetError::RocksDb(e)),
            Some(Ok(v)) => Ok(v),
        }
    }
}

/// The column families to open: those RocksDB lists, or, when it cannot
/// list them (a new or empty database), the single `default` one.
pub fn list_cf_or_default(listed: Result<Vec<String>, RocksDbError>) -> (r: Vec<String>)
    ensures
        match listed {
            Ok(names) => r == names,
            Err(_) => names_view(r@) == seq!["default"@],
        },
{
    match listed {
        Ok(names) => names,
        Err(_) => {
            let mut r = Vec::new();
            r.push(String::from_str("default"));
            assert(names_view(r@) =~= seq!["default"@]);
            r
        },
    }
}

/// The options a read-only open is made with.
#[derive(Debug, Clone, Copy, PartialEq, Eq, Structural)]
pub struct OpenOptions {
    pub create_if_missing: bool,
    pub create_missing_column_families: bool,
    /// A limit on open files, when one is set; `-1` keeps every file open.
    pub max_open_files: Option<i32>,
}

/// Neither mode creates anything. A secondary instance keeps every file
/// open, so that files stay readable after the primary unlinks them.
pub fn open_options(mode: Mode) -> (r: OpenOptions)
    ensures
        !r.create_if_missing,
        !r.create_missing_column_families,
        r.max_open_files == (if mode == Mode::Secondary {
            Some(-1i32)
        } else {
            None
        }),
{
    match mode {
        Mode::Snapshot => OpenOptions {
            create_if_missing: false,
            create_missing_column_families: false,
            max_open_files: None,
        },
        Mode::Secondary => OpenOptions {
            create_if_missing: false,
            create_missing_column_families: false,
            max_open_files: Some(-1),
        },
    }
}

/// Which directories an open uses.
pub enum OpenTarget<'a> {
    /// A read-only view of the primary directory.
    Snapshot { path: &'a std::path::PathBuf },
    /// A secondary instance of `primary` keeping its own state in `secondary`.
    Secondary { primary: &'a std::path::PathBuf, secondary: &'a std::path::PathBuf },
}

/// Where to open, by mode. Secondary mode needs its directory, which a
/// validated configuration has.
pub fn open_target(cfg: &Config) -> (r: OpenTarget<'_>)
    requires
        config_is_valid(cfg.mode, cfg.secondary_path),
    ensures
        match cfg.mode {
            Mode::Snapshot => r matches OpenTarget::Snapshot { path } && *path == cfg.db_path,
            Mode::Secondary => r matches OpenTarget::Secondary { primary, secondary } && *primary
                == cfg.db_path && cfg.secondary_path == Some(*secondary),
        },
{
    match cfg.mode {
        Mode::Snapshot => OpenTarget::Snapshot { path: &cfg.db_path },
        Mode::Secondary => match &cfg.secondary_path {
            Some(secondary) => OpenTarget::Secondary { primary: &cfg.db_path, secondary },
            None => OpenTarget::Snapshot { path: &cfg.db_path },
        },
    }
}

} // verus!
