//! Values kept in TOML files, and how a file is replaced.

use vstd::prelude::*;

use crate::text;
use crate::unix_path;
use crate::unix_path::path;

verus! {

/// Why a stored value could not be read or written.
#[derive(Debug, PartialEq, Eq)]
#[allow(inconsistent_fields)]
pub enum StoreError {
    Read { path: String, source: String },
    Parse { path: String, source: String },
    Serialize(String),
}

impl StoreError {
    /// The words for the error.
    pub open spec fn words(self) -> Seq<char> {
        match self {
            StoreError::Read { path, source } => "Failed to read "@ + path@ + ": "@ + source@,
            StoreError::Parse { path, source } => "Failed to parse "@ + path@ + ": "@ + source@,
            StoreError::Serialize(source) => "Failed to serialize config TOML: "@ + source@,
        }
    }

    /// The words for the error.
    pub fn message(&self) -> (out: String)
        ensures
            out@ == self.words(),
    {
        match self {
            StoreError::Read { path, source } => "Failed to read ".to_owned().concat(
                path.as_str(),
            ).concat(": ").concat(source.as_str()),
            StoreError::Parse { path, source } => "Failed to parse ".to_owned().concat(
                path.as_str(),
            ).concat(": ").concat(source.as_str()),
            StoreError::Serialize(source) => "Failed to serialize config TOML: ".to_owned().concat(
                source.as_str(),
            ),
        }
    }
}

/// A value, and the file that keeps it.
#[derive(Clone, Debug)]
pub struct TomlStore<T> {
    path: String,
    value: T,
}

/// A value that must be in its file: what reading and parsing the file gave, or
/// the error of whichever failed first.
pub fn load_toml<T>(path: &String, read: Result<(), String>, parsed: Result<T, String>) -> (r:
    Result<T, StoreError>)
    ensures
        r == match (read, parsed) {
            (Err(source), _) => Err::<T, StoreError>(StoreError::Read { path: *path, source }),
            (Ok(_), Err(source)) => Err::<T, StoreError>(
                StoreError::Parse { path: *path, source },
            ),
            (Ok(_), Ok(value)) => Ok::<T, StoreError>(value),
        },
{
    match read {
        Err(source) => Err(StoreError::Read { path: path.clone(), source }),
        Ok(_) => match parsed {
            Err(source) => Err(StoreError::Parse { path: path.clone(), source }),
            Ok(value) => Ok(value),
        },
    }
}

/// Whether a file holds a value at all: it is there, and not blank.
pub fn holds_value(content: &Option<String>) -> (r: bool)
    ensures
        r == (content matches Some(s) && text::trimmed(s@).len() > 0),
{
    match content {
        Some(s) => {
            let trimmed = text::trim(s.as_str());
            !trimmed.as_str().is_empty()
        },
        None => false,
    }
}

/// A value that may be in its file. `content` is the text of the file, `None`
/// where there is none, and `parsed` what parsing it gave; a file that is
/// missing or blank holds no value, whatever was parsed.
pub fn load_optional_toml<T>(
    path: &String,
    content: Result<Option<String>, String>,
    parsed: Result<T, String>,
) -> (r: Result<Option<T>, StoreError>)
    ensures
        match content {
            Err(source) => r == Err::<Option<T>, StoreError>(
                StoreError::Read { path: *path, source },
            ),
            Ok(file) => if file matches Some(s) && text::trimmed(s@).len() > 0 {
                match parsed {
                    Err(source) => r == Err::<Option<T>, StoreError>(
                        StoreError::Parse { path: *path, source },
                    ),
                    Ok(value) => r == Ok::<Option<T>, StoreError>(Some(value)),
                }
            } else {
                r == Ok::<Option<T>, StoreError>(None)
            },
        },
{
    match content {
        Err(source) => Err(StoreError::Read { path: path.clone(), source }),
        Ok(file) => if holds_value(&file) {
            match parsed {
                Err(source) => Err(StoreError::Parse { path: path.clone(), source }),
                Ok(value) => Ok(Some(value)),
            }
        } else {
            Ok(None)
        },
    }
}

impl<T> TomlStore<T> {
    /// The value.
    pub closed spec fn held(self) -> T {
        self.value
    }

    /// The path of the file.
    pub closed spec fn file(self) -> String {
        self.path
    }

    /// A store with the value that was loaded from its file.
    pub fn load(path: String, loaded: Result<T, StoreError>) -> (r: Result<
        TomlStore<T>,
        StoreError,
    >)
        ensures
            match loaded {
                Ok(value) => r matches Ok(store) && store.held() == value && store.file() == path,
                Err(e) => r == Err::<TomlStore<T>, StoreError>(e),
            },
    {
        match loaded {
            Ok(value) => Ok(TomlStore { path, value }),
            Err(e) => Err(e),
        }
    }

    /// The path of the file.
    pub fn path(&self) -> (r: &String)
        ensures
            *r == self.file(),
    {
        &self.path
    }

    /// The value.
    pub fn value(&self) -> (r: &T)
        ensures
            *r == self.held(),
    {
        &self.value
    }

    /// The value, to be changed.
    pub fn value_mut(&mut self) -> (r: &mut T)
        ensures
            *r == old(self).held(),
            final(self).held() == *final(r),
            final(self).file() == old(self).file(),
    {
        &mut self.value
    }

    /// The value alone.
    pub fn into_inner(self) -> (r: T)
        ensures
            r == self.held(),
    {
        self.value
    }

    /// What saving the value takes, given its text or the error of serialising
    /// it.
    pub fn save(
        &self,
        serialized: Result<String, String>,
        file_mode: Option<u32>,
        dir_mode: Option<u32>,
    ) -> (r: Result<(String, Vec<WriteStep>), StoreError>)
        ensures
            match serialized {
                Err(source) => r == Err::<(String, Vec<WriteStep>), StoreError>(
                    StoreError::Serialize(source),
                ),
                Ok(content) => r matches Ok(pair) && pair.0 == content && pair.1@ == write_plan(
                    self.file(),
                    file_mode,
                    dir_mode,
                ),
            },
    {
        match serialized {
            Err(source) => Err(StoreError::Serialize(source)),
            Ok(content) => Ok((content, atomic_write(&self.path, file_mode, dir_mode))),
        }
    }
}

impl<T: Default> TomlStore<T> {
    /// A store with the value that was loaded from its file, or the default
    /// where the file holds none.
    pub fn load_or_default(path: String, loaded: Result<Option<T>, StoreError>) -> (r: Result<
        TomlStore<T>,
        StoreError,
    >)
        ensures
            match loaded {
                Ok(Some(value)) => r matches Ok(store) && store.held() == value && store.file()
                    == path,
                Ok(None) => r matches Ok(store) && T::default.ensures((), store.held())
                    && store.file() == path,
                Err(e) => r == Err::<TomlStore<T>, StoreError>(e),
            },
    {
        match loaded {
            Ok(found) => {
                let value = found.unwrap_or_default();
                Ok(TomlStore { path, value })
            },
            Err(e) => Err(e),
        }
    }
}

/// One step in writing a file.
#[derive(Clone, Debug, PartialEq, Eq)]
#[allow(inconsistent_fields)]
pub enum WriteStep {
    EnsureParent { file: String, mode: Option<u32> },
    CreateTemporaryBeside { file: String },
    SetTemporaryMode(u32),
    WriteTemporary,
    FlushTemporary,
    SyncTemporary,
    MoveTemporaryTo { file: String },
    WriteInPlace { file: String },
    SetMode { file: String, mode: u32 },
}

/// The step that sets the mode of a file, where one is asked for.
pub open spec fn mode_step(file: String, mode: Option<u32>) -> Seq<WriteStep> {
    match mode {
        Some(m) => seq![WriteStep::SetMode { file, mode: m }],
        None => seq![],
    }
}

/// The steps that replace a file: the new contents are written and synced to a
/// temporary file in the same directory, which then takes the file's place. A
/// path without a parent is written in place.
pub open spec fn write_plan(file: String, file_mode: Option<u32>, dir_mode: Option<u32>) -> Seq<
    WriteStep,
> {
    if unix_path::parent(path(file@)) is Some {
        seq![
            WriteStep::EnsureParent { file, mode: dir_mode },
            WriteStep::CreateTemporaryBeside { file },
        ] + match file_mode {
            Some(m) => seq![WriteStep::SetTemporaryMode(m)],
            None => seq![],
        } + seq![
            WriteStep::WriteTemporary,
            WriteStep::FlushTemporary,
            WriteStep::SyncTemporary,
            WriteStep::MoveTemporaryTo { file },
        ] + mode_step(file, file_mode)
    } else {
        seq![WriteStep::WriteInPlace { file }] + mode_step(file, file_mode)
    }
}

fn has_parent(file: &str) -> (r: bool)
    ensures
        r == (unix_path::parent(path(file@)) is Some),
{
    let parts = unix_path::parts(file);
    assert(text::texts(parts@).len() == parts@.len());
    parts.len() > 0
}

/// The steps that replace a file.
pub fn atomic_write(file: &String, file_mode: Option<u32>, dir_mode: Option<u32>) -> (r: Vec<
    WriteStep,
>)
    ensures
        r@ == write_plan(*file, file_mode, dir_mode),
{
    let mut steps: Vec<WriteStep> = Vec::new();
    if has_parent(file.as_str()) {
        steps.push(WriteStep::EnsureParent { file: file.clone(), mode: dir_mode });
        steps.push(WriteStep::CreateTemporaryBeside { file: file.clone() });
        if let Some(mode) = file_mode {
            steps.push(WriteStep::SetTemporaryMode(mode));
        }
        steps.push(WriteStep::WriteTemporary);
        steps.push(WriteStep::FlushTemporary);
        steps.push(WriteStep::SyncTemporary);
        steps.push(WriteStep::MoveTemporaryTo { file: file.clone() });
    } else {
        steps.push(WriteStep::WriteInPlace { file: file.clone() });
    }
    if let Some(mode) = file_mode {
        steps.push(WriteStep::SetMode { file: file.clone(), mode });
    }
    assert(steps@ =~= write_plan(*file, file_mode, dir_mode));
    steps
}

/// The steps that write a file where it is.
pub fn write_bytes(file: &String, file_mode: Option<u32>, dir_mode: Option<u32>) -> (r: Vec<
    WriteStep,
>)
    ensures
        r@ == if unix_path::parent(path(file@)) is Some {
            seq![WriteStep::EnsureParent { file: *file, mode: dir_mode }]
        } else {
            seq![]
        } + seq![WriteStep::WriteInPlace { file: *file }] + mode_step(*file, file_mode),
{
    let mut steps: Vec<WriteStep> = Vec::new();
    if has_parent(file.as_str()) {
        steps.push(WriteStep::EnsureParent { file: file.clone(), mode: dir_mode });
    }
    steps.push(WriteStep::WriteInPlace { file: file.clone() });
    if let Some(mode) = file_mode {
        steps.push(WriteStep::SetMode { file: file.clone(), mode });
    }
    assert(steps@ =~= (if unix_path::parent(path(file@)) is Some {
        seq![WriteStep::EnsureParent { file: *file, mode: dir_mode }]
    } else {
        seq![]
    } + seq![WriteStep::WriteInPlace { file: *file }] + mode_step(*file, file_mode)));
    steps
}

/// What is in a file and in the temporary file beside it.
pub ghost struct WriteState {
    pub file: Option<Seq<u8>>,
    pub temporary: Option<Seq<u8>>,
}

/// The files after a step that writes the given contents.
pub open spec fn after_step(state: WriteState, step: WriteStep, contents: Seq<u8>) -> WriteState {
    match step {
        WriteStep::CreateTemporaryBeside { .. } => WriteState {
            temporary: Some(Seq::empty()),
            ..state
        },
        WriteStep::WriteTemporary => WriteState { temporary: Some(contents), ..state },
        WriteStep::MoveTemporaryTo { .. } => WriteState { file: state.temporary, temporary: None },
        WriteStep::WriteInPlace { .. } => WriteState { file: Some(contents), ..state },
        _ => state,
    }
}

/// The files after steps that write the given contents.
pub open spec fn after_steps(
    state: WriteState,
    steps: Seq<WriteStep>,
    contents: Seq<u8>,
) -> WriteState
    decreases steps.len(),
{
    if steps.len() == 0 {
        state
    } else {
        after_step(after_steps(state, steps.drop_last(), contents), steps.last(), contents)
    }
}

/// Replacing a file that has a parent is all or nothing: cut off after any
/// number of steps, the file holds what it held before or the complete new
/// contents, and after all of them it holds the new contents.
pub proof fn law_replacement_is_all_or_nothing(
    file: String,
    file_mode: Option<u32>,
    dir_mode: Option<u32>,
    state: WriteState,
    contents: Seq<u8>,
    done: int,
)
    requires
        unix_path::parent(path(file@)) is Some,
        0 <= done <= write_plan(file, file_mode, dir_mode).len(),
    ensures
        ({
            let plan = write_plan(file, file_mode, dir_mode);
            let after = after_steps(state, plan.take(done), contents).file;
            &&& after == state.file || after == Some(contents)
            &&& done == plan.len() ==> after == Some(contents)
        }),
{
    reveal_with_fuel(after_steps, 10);
    let plan = write_plan(file, file_mode, dir_mode);
    let t = plan.take(done);
    assert(t.len() == done);
}

} // verus!
