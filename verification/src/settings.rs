//! The configuration surface: which files and directories an operation
//! uses and which phases of an update run are enabled, together with the
//! parsing of the `set <field> <value>` and `validate <target>` command
//! forms.
//!
//! Whether a supplied path actually exists on disk is the caller's
//! concern: the setter takes that answer as an argument and decides the
//! rest.

use vstd::prelude::*;
use crate::text;
use crate::updater::UpdateConfig;

verus! {

/// The configuration values the commands read and write.
#[derive(Debug, Clone)]
pub struct Settings {
    pub changes_file: Option<String>,
    pub game_directory: Option<String>,
    pub update_directory: Option<String>,
    pub backup_directory: Option<String>,
    pub manifest_file: Option<String>,
    pub validate_update: bool,
    pub validate_game: bool,
    pub create_backup: bool,
    pub copy_files: bool,
    pub remove_files: bool,
}

/// The mathematical image of a settings value.
#[verifier::ext_equal]
pub struct SettingsData {
    pub changes_file: Option<Seq<char>>,
    pub game_directory: Option<Seq<char>>,
    pub update_directory: Option<Seq<char>>,
    pub backup_directory: Option<Seq<char>>,
    pub manifest_file: Option<Seq<char>>,
    pub validate_update: bool,
    pub validate_game: bool,
    pub create_backup: bool,
    pub copy_files: bool,
    pub remove_files: bool,
}

pub open spec fn opt_view(o: Option<String>) -> Option<Seq<char>> {
    match o {
        Some(s) => Some(s@),
        None => None,
    }
}

impl View for Settings {
    type V = SettingsData;

    open spec fn view(&self) -> SettingsData {
        SettingsData {
            changes_file: opt_view(self.changes_file),
            game_directory: opt_view(self.game_directory),
            update_directory: opt_view(self.update_directory),
            backup_directory: opt_view(self.backup_directory),
            manifest_file: opt_view(self.manifest_file),
            validate_update: self.validate_update,
            validate_game: self.validate_game,
            create_backup: self.create_backup,
            copy_files: self.copy_files,
            remove_files: self.remove_files,
        }
    }
}

impl Default for Settings {
    /// No paths configured; every phase of an update enabled.
    fn default() -> (r: Settings)
        ensures
            r.changes_file is None,
            r.game_directory is None,
            r.update_directory is None,
            r.backup_directory is None,
            r.manifest_file is None,
            r.validate_update,
            r.validate_game,
            r.create_backup,
            r.copy_files,
            r.remove_files,
    {
        Settings {
            changes_file: None,
            game_directory: None,
            update_directory: None,
            backup_directory: None,
            manifest_file: None,
            validate_update: true,
            validate_game: true,
            create_backup: true,
            copy_files: true,
            remove_files: true,
        }
    }
}

/// A closed enumeration of the settable fields.
#[derive(Debug, Clone, Copy, PartialEq, Eq, Structural)]
pub enum SettingsKey {
    ChangesFile,
    GameDirectory,
    UpdateDirectory,
    ManifestFile,
    ValidateUpdate,
    ValidateGame,
    CreateBackup,
    CopyFiles,
    RemoveFiles,
}

/// The key a command-line field name denotes.
pub open spec fn spec_parse_key(n: Seq<char>) -> Option<SettingsKey> {
    if n == "changes_file"@ {
        Some(SettingsKey::ChangesFile)
    } else if n == "game_directory"@ {
        Some(SettingsKey::GameDirectory)
    } else if n == "update_directory"@ {
        Some(SettingsKey::UpdateDirectory)
    } else if n == "manifest_file"@ {
        Some(SettingsKey::ManifestFile)
    } else if n == "validate_update_files"@ {
        Some(SettingsKey::ValidateUpdate)
    } else if n == "validate_game_files"@ {
        Some(SettingsKey::ValidateGame)
    } else if n == "create_backup"@ {
        Some(SettingsKey::CreateBackup)
    } else if n == "copy_files"@ {
        Some(SettingsKey::CopyFiles)
    } else if n == "remove_files"@ {
        Some(SettingsKey::RemoveFiles)
    } else {
        None
    }
}

impl SettingsKey {
    pub fn parse(name: &str) -> (r: Option<SettingsKey>)
        ensures
            r == spec_parse_key(name@),
    {
        let n = text::chars_of(name);
        if text::eq_str(&n, "changes_file") {
            Some(SettingsKey::ChangesFile)
        } else if text::eq_str(&n, "game_directory") {
            Some(SettingsKey::GameDirectory)
        } else if text::eq_str(&n, "update_directory") {
            Some(SettingsKey::UpdateDirectory)
        } else if text::eq_str(&n, "manifest_file") {
            Some(SettingsKey::ManifestFile)
        } else if text::eq_str(&n, "validate_update_files") {
            Some(SettingsKey::ValidateUpdate)
        } else if text::eq_str(&n, "validate_game_files") {
            Some(SettingsKey::ValidateGame)
        } else if text::eq_str(&n, "create_backup") {
            Some(SettingsKey::CreateBackup)
        } else if text::eq_str(&n, "copy_files") {
            Some(SettingsKey::CopyFiles)
        } else if text::eq_str(&n, "remove_files") {
            Some(SettingsKey::RemoveFiles)
        } else {
            None
        }
    }

    /// The key's value is a path that must name an existing file.
    pub open spec fn spec_expects_file(self) -> bool {
        self is ChangesFile || self is ManifestFile
    }

    /// The key's value is a path that must name an existing directory.
    pub open spec fn spec_expects_dir(self) -> bool {
        self is GameDirectory || self is UpdateDirectory
    }

    pub fn expects_file(&self) -> (r: bool)
        ensures
            r == self.spec_expects_file(),
    {
        match self {
            SettingsKey::ChangesFile => true,
            SettingsKey::ManifestFile => true,
            _ => false,
        }
    }

    pub fn expects_dir(&self) -> (r: bool)
        ensures
            r == self.spec_expects_dir(),
    {
        match self {
            SettingsKey::GameDirectory => true,
            SettingsKey::UpdateDirectory => true,
            _ => false,
        }
    }
}

/// The boolean a toggle value denotes, case-insensitively: `true`, `t`
/// and `1` set, `false`, `f` and `0` clear, anything else is invalid.
pub open spec fn spec_parse_bool(v: Seq<char>) -> Option<bool> {
    let l = text::spec_lower(v);
    if l == "true"@ || l == "t"@ || l == "1"@ {
        Some(true)
    } else if l == "false"@ || l == "f"@ || l == "0"@ {
        Some(false)
    } else {
        None
    }
}

pub fn parse_bool(v: &str) -> (r: Option<bool>)
    ensures
        r == spec_parse_bool(v@),
{
    let cs = text::chars_of(v);
    let l = text::lower_chars(&cs);
    if text::eq_str(&l, "true") || text::eq_str(&l, "t") || text::eq_str(&l, "1") {
        Some(true)
    } else if text::eq_str(&l, "false") || text::eq_str(&l, "f") || text::eq_str(&l, "0") {
        Some(false)
    } else {
        None
    }
}

/// Why a settings value was rejected.
#[derive(Debug, Clone, Copy, PartialEq, Eq, Structural)]
pub enum SettingsError {
    /// A toggle value that denotes neither true nor false.
    InvalidValue,
}

/// The settings after applying one key, and whether the value was
/// accepted. A path key stores the value only when the caller found the
/// path valid, and clears the field otherwise; a toggle key with an
/// invalid value changes nothing.
pub open spec fn spec_modify(d: SettingsData, key: SettingsKey, v: Seq<char>, path_ok: bool) -> (
    SettingsData,
    bool,
) {
    let stored: Option<Seq<char>> = if path_ok {
        Some(v)
    } else {
        None
    };
    match key {
        SettingsKey::ChangesFile => (SettingsData { changes_file: stored, ..d }, true),
        SettingsKey::GameDirectory => (SettingsData { game_directory: stored, ..d }, true),
        SettingsKey::UpdateDirectory => (SettingsData { update_directory: stored, ..d }, true),
        SettingsKey::ManifestFile => (SettingsData { manifest_file: stored, ..d }, true),
        SettingsKey::ValidateUpdate => match spec_parse_bool(v) {
            Some(b) => (SettingsData { validate_update: b, ..d }, true),
            None => (d, false),
        },
        SettingsKey::ValidateGame => match spec_parse_bool(v) {
            Some(b) => (SettingsData { validate_game: b, ..d }, true),
            None => (d, false),
        },
        SettingsKey::CreateBackup => match spec_parse_bool(v) {
            Some(b) => (SettingsData { create_backup: b, ..d }, true),
            None => (d, false),
        },
        SettingsKey::CopyFiles => match spec_parse_bool(v) {
            Some(b) => (SettingsData { copy_files: b, ..d }, true),
            None => (d, false),
        },
        SettingsKey::RemoveFiles => match spec_parse_bool(v) {
            Some(b) => (SettingsData { remove_files: b, ..d }, true),
            None => (d, false),
        },
    }
}

impl Settings {
    /// Applies one `set` command that has already been split into a key
    /// and a value. `path_ok` is the caller's answer to whether the value
    /// names an existing file or directory of the kind the key expects;
    /// it is ignored for toggle keys.
    pub fn modify_fields(&mut self, key: SettingsKey, value: &str, path_ok: bool) -> (r: Result<
        (),
        SettingsError,
    >)
        ensures
            final(self)@ == spec_modify(old(self)@, key, value@, path_ok).0,
            (r is Ok) == spec_modify(old(self)@, key, value@, path_ok).1,
    {
        let stored: Option<String> = if path_ok {
            Some(String::from_str(value))
        } else {
            None
        };
        match key {
            SettingsKey::ChangesFile => {
                self.changes_file = stored;
                proof {
                    assert(self@ =~= spec_modify(old(self)@, key, value@, path_ok).0);
                }
                Ok(())
            },
            SettingsKey::GameDirectory => {
                self.game_directory = stored;
                proof {
                    assert(self@ =~= spec_modify(old(self)@, key, value@, path_ok).0);
                }
                Ok(())
            },
            SettingsKey::UpdateDirectory => {
                self.update_directory = stored;
                proof {
                    assert(self@ =~= spec_modify(old(self)@, key, value@, path_ok).0);
                }
                Ok(())
            },
            SettingsKey::ManifestFile => {
                self.manifest_file = stored;
                proof {
                    assert(self@ =~= spec_modify(old(self)@, key, value@, path_ok).0);
                }
                Ok(())
            },
            SettingsKey::ValidateUpdate => match parse_bool(value) {
                Some(b) => {
                    self.validate_update = b;
                    proof {
                        assert(self@ =~= spec_modify(old(self)@, key, value@, path_ok).0);
                    }
                    Ok(())
                },
                None => {
                    proof {
                        assert(self@ =~= spec_modify(old(self)@, key, value@, path_ok).0);
                    }
                    Err(SettingsError::InvalidValue)
                },
            },
            SettingsKey::ValidateGame => match parse_bool(value) {
                Some(b) => {
                    self.validate_game = b;
                    proof {
                        assert(self@ =~= spec_modify(old(self)@, key, value@, path_ok).0);
                    }
                    Ok(())
                },
                None => {
                    proof {
                        assert(self@ =~= spec_modify(old(self)@, key, value@, path_ok).0);
                    }
                    Err(SettingsError::InvalidValue)
                },
            },
            SettingsKey::CreateBackup => match parse_bool(value) {
                Some(b) => {
                    self.create_backup = b;
                    proof {
                        assert(self@ =~= spec_modify(old(self)@, key, value@, path_ok).0);
                    }
                    Ok(())
                },
                None => {
                    proof {
                        assert(self@ =~= spec_modify(old(self)@, key, value@, path_ok).0);
                    }
                    Err(SettingsError::InvalidValue)
                },
            },
            SettingsKey::CopyFiles => match parse_bool(value) {
                Some(b) => {
                    self.copy_files = b;
                    proof {
                        assert(self@ =~= spec_modify(old(self)@, key, value@, path_ok).0);
                    }
                    Ok(())
                },
                None => {
                    proof {
                        assert(self@ =~= spec_modify(old(self)@, key, value@, path_ok).0);
                    }
                    Err(SettingsError::InvalidValue)
                },
            },
            SettingsKey::RemoveFiles => match parse_bool(value) {
                Some(b) => {
                    self.remove_files = b;
                    proof {
                        assert(self@ =~= spec_modify(old(self)@, key, value@, path_ok).0);
                    }
                    Ok(())
                },
                None => {
                    proof {
                        assert(self@ =~= spec_modify(old(self)@, key, value@, path_ok).0);
                    }
                    Err(SettingsError::InvalidValue)
                },
            },
        }
    }

    /// The switches an update run derives from these settings.
    pub fn update_config(&self) -> (c: UpdateConfig)
        ensures
            c.have_manifest == (self.manifest_file is Some),
            c.validate_update == self.validate_update,
            c.validate_game == self.validate_game,
            c.create_backup == self.create_backup,
            c.copy_files == self.copy_files,
            c.remove_files == self.remove_files,
    {
        UpdateConfig {
            have_manifest: self.manifest_file.is_some(),
            validate_update: self.validate_update,
            validate_game: self.validate_game,
            create_backup: self.create_backup,
            copy_files: self.copy_files,
            remove_files: self.remove_files,
        }
    }
}

// ---------------------------------------------------------------------
// Command parsing.
// ---------------------------------------------------------------------

/// The space-separated fields of a command line; unlike whitespace
/// tokenizing, consecutive spaces yield empty fields.
pub open spec fn spec_fields_from(s: Seq<char>, cur: Seq<char>) -> Seq<Seq<char>>
    decreases s.len(),
{
    if s.len() == 0 {
        seq![cur]
    } else if s[0] == ' ' {
        seq![cur] + spec_fields_from(s.skip(1), Seq::empty())
    } else {
        spec_fields_from(s.skip(1), cur.push(s[0]))
    }
}

pub open spec fn spec_fields(s: Seq<char>) -> Seq<Seq<char>> {
    spec_fields_from(s, Seq::empty())
}

/// Splits a command line on single spaces.
pub fn split_fields(s: &Vec<char>) -> (r: Vec<Vec<char>>)
    ensures
        r.deep_view() == spec_fields(s@),
{
    let mut r: Vec<Vec<char>> = Vec::new();
    let mut cur: Vec<char> = Vec::new();
    let mut i: usize = 0;
    proof {
        assert(s@.skip(0) =~= s@);
        assert(r.deep_view() =~= Seq::<Seq<char>>::empty());
        assert(r.deep_view() + spec_fields_from(s@, cur@) =~= spec_fields_from(s@, cur@));
    }
    while i < s.len()
        invariant
            i <= s@.len(),
            spec_fields(s@) == r.deep_view() + spec_fields_from(s@.skip(i as int), cur@),
        decreases s@.len() - i,
    {
        proof {
            assert(s@.skip(i as int).skip(1) =~= s@.skip(i + 1));
            assert(s@.skip(i as int)[0] == s@[i as int]);
        }
        let c = s[i];
        if c == ' ' {
            let ghost old_dv = r.deep_view();
            let ghost f = cur@;
            proof {
                assert(cur.deep_view() =~= cur@);
            }
            r.push(cur);
            cur = Vec::new();
            proof {
                assert(r.deep_view() =~= old_dv.push(f));
                assert(old_dv + (seq![f] + spec_fields_from(s@.skip(i + 1), Seq::empty()))
                    =~= r.deep_view() + spec_fields_from(s@.skip(i + 1), Seq::empty()));
            }
        } else {
            cur.push(c);
        }
        i = i + 1;
    }
    proof {
        assert(s@.skip(s@.len() as int) =~= Seq::<char>::empty());
    }
    let ghost old_dv = r.deep_view();
    let ghost f = cur@;
    proof {
        assert(cur.deep_view() =~= cur@);
    }
    r.push(cur);
    proof {
        assert(r.deep_view() =~= old_dv.push(f));
        assert(old_dv + seq![f] =~= r.deep_view());
    }
    r
}

/// `s` with every double-quote character removed.
pub open spec fn spec_strip_quotes(s: Seq<char>) -> Seq<char>
    decreases s.len(),
{
    if s.len() == 0 {
        Seq::empty()
    } else if s[0] == '"' {
        spec_strip_quotes(s.skip(1))
    } else {
        seq![s[0]] + spec_strip_quotes(s.skip(1))
    }
}

fn strip_quotes(s: &Vec<char>) -> (r: Vec<char>)
    ensures
        r@ == spec_strip_quotes(s@),
{
    let mut r: Vec<char> = Vec::new();
    let mut i: usize = 0;
    proof {
        assert(s@.skip(0) =~= s@);
        assert(r@ + spec_strip_quotes(s@) =~= spec_strip_quotes(s@));
    }
    while i < s.len()
        invariant
            i <= s@.len(),
            spec_strip_quotes(s@) == r@ + spec_strip_quotes(s@.skip(i as int)),
        decreases s@.len() - i,
    {
        proof {
            assert(s@.skip(i as int).skip(1) =~= s@.skip(i + 1));
            assert(s@.skip(i as int)[0] == s@[i as int]);
        }
        let ghost old_r = r@;
        let c = s[i];
        if c != '"' {
            r.push(c);
            proof {
                assert(old_r + (seq![s@[i as int]] + spec_strip_quotes(s@.skip(i + 1))) =~= r@
                    + spec_strip_quotes(s@.skip(i + 1)));
            }
        }
        i = i + 1;
    }
    proof {
        assert(s@.skip(s@.len() as int) =~= Seq::<char>::empty());
        assert(r@ + Seq::<char>::empty() =~= r@);
    }
    r
}

/// One parsed `set` command: the field name and the raw value.
#[derive(Debug)]
pub struct SetCommand {
    pub field: String,
    pub value: String,
}

/// Why a `set` command line was rejected.
#[derive(Debug, Clone, Copy, PartialEq, Eq, Structural)]
pub enum SetCommandError {
    /// No field followed the command word.
    MissingField,
    /// No value followed the field.
    MissingValue,
}

/// The field of a well-formed `set` line: its second space-separated
/// field.
pub open spec fn spec_set_field(s: Seq<char>) -> Seq<char> {
    spec_fields(s)[1]
}

/// The value of a well-formed `set` line: everything after the field,
/// with spaces between fields restored, double quotes removed, and
/// whitespace trimmed.
pub open spec fn spec_set_value(s: Seq<char>) -> Seq<char> {
    text::spec_trim(spec_strip_quotes(text::spec_join(spec_fields(s).skip(2), " "@)))
}

/// Splits a `set <field> <value>` command line.
pub fn parse_set_command(input: &str) -> (r: Result<SetCommand, SetCommandError>)
    ensures
        spec_fields(input@).len() < 2 ==> (r matches Err(e) && e is MissingField),
        spec_fields(input@).len() == 2 ==> (r matches Err(e) && e is MissingValue),
        spec_fields(input@).len() > 2 ==> (r matches Ok(c) && c.field@ == spec_set_field(input@)
            && c.value@ == spec_set_value(input@)),
{
    let cs = text::chars_of(input);
    let fields = split_fields(&cs);
    if fields.len() < 2 {
        return Err(SetCommandError::MissingField);
    }
    if fields.len() == 2 {
        return Err(SetCommandError::MissingValue);
    }
    let field = text::string_of(&fields[1]);
    proof {
        assert(fields.deep_view()[1] =~= fields@[1]@);
    }
    let mut sep: Vec<char> = Vec::new();
    sep.push(' ');
    let joined = text::join_range(&fields, 2, &sep);
    let unquoted = strip_quotes(&joined);
    let trimmed = text::trim_chars(&unquoted);
    let value = text::string_of(&trimmed);
    proof {
        assert(sep@ =~= " "@) by {
            reveal_strlit(" ");
        }
    }
    Ok(SetCommand { field, value })
}

/// Which directory a `validate` command checks.
#[derive(Debug, Clone, Copy, PartialEq, Eq, Structural)]
pub enum ValidateTarget {
    /// The staged update directory, restricted to the changeset.
    UpdateDir,
    /// The whole game directory.
    GameDir,
}

/// Why a `validate` command line was rejected.
#[derive(Debug, Clone, Copy, PartialEq, Eq, Structural)]
pub enum ValidateTargetError {
    /// No target followed the command word.
    MissingTarget,
    /// The target was neither `update` nor `game`.
    UnknownTarget,
}

/// The target of a well-formed `validate` line: its second field,
/// trimmed.
pub open spec fn spec_validate_target(s: Seq<char>) -> Seq<char> {
    text::spec_trim(spec_fields(s)[1])
}

/// Splits a `validate <"update" | "game">` command line.
pub fn parse_validate_command(input: &str) -> (r: Result<ValidateTarget, ValidateTargetError>)
    ensures
        spec_fields(input@).len() < 2 ==> (r matches Err(e) && e is MissingTarget),
        spec_fields(input@).len() >= 2 ==> {
            let t = spec_validate_target(input@);
            if t == "update"@ {
                r == Ok::<ValidateTarget, ValidateTargetError>(ValidateTarget::UpdateDir)
            } else if t == "game"@ {
                r == Ok::<ValidateTarget, ValidateTargetError>(ValidateTarget::GameDir)
            } else {
                r matches Err(e) && e is UnknownTarget
            }
        },
{
    let cs = text::chars_of(input);
    let fields = split_fields(&cs);
    if fields.len() < 2 {
        return Err(ValidateTargetError::MissingTarget);
    }
    proof {
        assert(fields.deep_view()[1] =~= fields@[1]@);
    }
    let t = text::trim_chars(&fields[1]);
    if text::eq_str(&t, "update") {
        Ok(ValidateTarget::UpdateDir)
    } else if text::eq_str(&t, "game") {
        Ok(ValidateTarget::GameDir)
    } else {
        Err(ValidateTargetError::UnknownTarget)
    }
}

/// Index of the first name holding `changes.json`, the convention by
/// which a changeset file is discovered in the working directory.
pub fn find_changes_file(names: &Vec<String>) -> (r: Option<usize>)
    ensures
        r matches Some(i) ==> i < names@.len() && text::spec_contains(
            names.deep_view()[i as int],
            "changes.json"@,
        ),
        r is None ==> forall|j: int|
            0 <= j < names@.len() ==> !text::spec_contains(
                #[trigger] names.deep_view()[j],
                "changes.json"@,
            ),
{
    let mut i: usize = 0;
    while i < names.len()
        invariant
            i <= names@.len(),
            forall|j: int|
                0 <= j < i ==> !text::spec_contains(
                    #[trigger] names.deep_view()[j],
                    "changes.json"@,
                ),
        decreases names@.len() - i,
    {
        let cs = text::chars_of(names[i].as_str());
        proof {
            assert(names.deep_view()[i as int] =~= names@[i as int]@);
        }
        if text::contains_sub(&cs, "changes.json") {
            return Some(i);
        }
        i = i + 1;
    }
    None
}

/// Index of the first name holding `manifest` or `sha1`, the convention
/// by which a manifest file is discovered in the working directory.
pub fn find_manifest_file(names: &Vec<String>) -> (r: Option<usize>)
    ensures
        r matches Some(i) ==> i < names@.len() && (text::spec_contains(
            names.deep_view()[i as int],
            "manifest"@,
        ) || text::spec_contains(names.deep_view()[i as int], "sha1"@)),
        r is None ==> forall|j: int|
            0 <= j < names@.len() ==> !text::spec_contains(
                #[trigger] names.deep_view()[j],
                "manifest"@,
            ) && !text::spec_contains(#[trigger] names.deep_view()[j], "sha1"@),
{
    let mut i: usize = 0;
    while i < names.len()
        invariant
            i <= names@.len(),
            forall|j: int|
                0 <= j < i ==> !text::spec_contains(#[trigger] names.deep_view()[j], "manifest"@)
                    && !text::spec_contains(#[trigger] names.deep_view()[j], "sha1"@),
        decreases names@.len() - i,
    {
        let cs = text::chars_of(names[i].as_str());
        proof {
            assert(names.deep_view()[i as int] =~= names@[i as int]@);
        }
        if text::contains_sub(&cs, "manifest") || text::contains_sub(&cs, "sha1") {
            return Some(i);
        }
        i = i + 1;
    }
    None
}

} // verus!
