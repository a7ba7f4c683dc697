use crate::clock::Moment;
use vstd::prelude::*;
use vstd::string::*;

verus! {

/// The base name of a path, as std's `Path::file_name` gives it.
pub uninterp spec fn file_name_of(path: Seq<char>) -> Option<Seq<char>>;

/// A path with one more component, as std's `Path::join` gives it.
pub uninterp spec fn joined(base: Seq<char>, part: Seq<char>) -> Seq<char>;

/// Relies on std's `Path::file_name`: the final component of the path, if
/// there is one.
#[verifier::external_body]
fn path_file_name(path: &str) -> (r: Option<String>)
    ensures
        r matches Some(n) ==> file_name_of(path@) == Some(n@),
        r is None ==> file_name_of(path@) is None,
{
    match std::path::Path::new(path).file_name() {
        Some(n) => Some(n.to_string_lossy().into_owned()),
        None => None,
    }
}

/// Relies on std's `Path::join`: `part` added to `base` as one more path
/// component.
#[verifier::external_body]
pub(crate) fn join_path(base: &str, part: &str) -> (r: String)
    ensures
        r@ == joined(base@, part@),
{
    std::path::Path::new(base).join(part).to_string_lossy().into_owned()
}

/// A file name has an extension when a dot follows its first character:
/// the text after the last dot is then the extension.
pub open spec fn has_extension(name: Seq<char>) -> bool {
    exists|i: int| 0 < i < name.len() && #[trigger] name[i] == '.'
}

/// An editor's scratch file is told apart by its extension: any file name
/// that has one counts as temporary.
pub fn name_has_extension(name: &str) -> (r: bool)
    ensures
        r == has_extension(name@),
{
    let n = name.unicode_len();
    let mut i: usize = 1;
    while i < n
        invariant
            n == name@.len(),
            1 <= i,
            forall|j: int| 0 < j < i && j < n ==> name@[j] != '.',
        decreases n - i,
    {
        if name.get_char(i) == '.' {
            return true;
        }
        i = i + 1;
    }
    false
}

/// `name` ends with `suffix`.
pub open spec fn ends_with(name: Seq<char>, suffix: Seq<char>) -> bool {
    suffix.len() <= name.len() && name.subrange(name.len() - suffix.len(), name.len() as int)
        == suffix
}

fn text_ends_with(name: &str, suffix: &str) -> (r: bool)
    ensures
        r == ends_with(name@, suffix@),
{
    let n = name.unicode_len();
    let m = suffix.unicode_len();
    if m > n {
        return false;
    }
    let off = n - m;
    let mut i: usize = 0;
    while i < m
        invariant
            n == name@.len(),
            m == suffix@.len(),
            off + m == n,
            i <= m,
            forall|j: int| 0 <= j < i ==> name@[off + j] == suffix@[j],
        decreases m - i,
    {
        if name.get_char(off + i) != suffix.get_char(i) {
            assert(name@.subrange(off as int, n as int)[i as int] != suffix@[i as int]);
            return false;
        }
        i = i + 1;
    }
    assert(name@.subrange(off as int, n as int) =~= suffix@);
    true
}

/// Which file names belong to an editor's scratch files, never backed up.
pub enum ScratchRule {
    /// Any name with an extension.
    AnyExtension,
    /// A name that ends with one of these suffixes.
    Suffixes(Vec<String>),
}

impl ScratchRule {
    pub open spec fn marks(&self, name: Seq<char>) -> bool {
        match self {
            ScratchRule::AnyExtension => has_extension(name),
            ScratchRule::Suffixes(v) => exists|k: int|
                0 <= k < v@.len() && #[trigger] ends_with(name, v@[k]@),
        }
    }

    /// Whether `name` is a scratch file's name under this rule.
    pub fn is_scratch(&self, name: &str) -> (r: bool)
        ensures
            r == self.marks(name@),
    {
        match self {
            ScratchRule::AnyExtension => name_has_extension(name),
            ScratchRule::Suffixes(v) => {
                let mut k: usize = 0;
                while k < v.len()
                    invariant
                        *self == ScratchRule::Suffixes(*v),
                        k <= v@.len(),
                        forall|j: int| 0 <= j < k ==> !#[trigger] ends_with(name@, v@[j]@),
                    decreases v@.len() - k,
                {
                    if text_ends_with(name, v[k].as_str()) {
                        assert(ends_with(name@, v@[k as int]@));
                        assert(self->Suffixes_0@ == v@);
                        return true;
                    }
                    k = k + 1;
                }
                false
            },
        }
    }
}

/// Why no descriptor could be built from an event's paths.
#[derive(Clone, Copy, Debug, PartialEq, Eq, Structural)]
pub enum EventFileError {
    /// The event carried no path.
    NoPaths,
    /// The path has no final component to name the file by.
    NoFileName,
}

/// The paths of one change event, resolved into what a backup copy needs.
pub struct EventFile {
    pub paths: Vec<String>,
    pub source_path: String,
    pub target_dir: String,
    pub target_path: String,
    pub file_name: String,
    /// The file name has an extension, the default mark of a scratch file.
    pub is_temp_file: bool,
}

impl EventFile {
    /// The event's paths, in order.
    pub open spec fn paths_view(&self) -> Seq<Seq<char>> {
        self.paths@.map_values(|p: String| p@)
    }

    /// A descriptor that holds the paths and nothing resolved yet.
    pub fn new(paths: &Vec<String>) -> (r: EventFile)
        ensures
            r.paths_view() == paths@.map_values(|p: String| p@),
            r.source_path@.len() == 0,
            r.target_dir@.len() == 0,
            r.target_path@.len() == 0,
            r.file_name@.len() == 0,
            !r.is_temp_file,
    {
        EventFile {
            paths: paths.clone(),
            source_path: String::new(),
            target_dir: String::new(),
            target_path: String::new(),
            file_name: String::new(),
            is_temp_file: false,
        }
    }

    /// Takes the first of the event's paths as the source.
    pub fn build_source(self) -> (r: Result<EventFile, EventFileError>)
        ensures
            r is Ok <==> self.paths_view().len() > 0,
            r matches Err(e) ==> e == EventFileError::NoPaths,
            r matches Ok(f) ==> (f.source_path@ == self.paths_view()[0] && f.paths_view()
                == self.paths_view() && f.target_dir@ == self.target_dir@ && f.target_path@
                == self.target_path@ && f.file_name@ == self.file_name@ && f.is_temp_file
                == self.is_temp_file),
    {
        if self.paths.len() == 0 {
            return Err(EventFileError::NoPaths);
        }
        let source = self.paths[0].clone();
        let mut f = self;
        f.source_path = source;
        Ok(f)
    }

    /// Fills in the source's file name, and whether it names a temporary file.
    pub fn build_file_name_and_extension(self) -> (r: Result<EventFile, EventFileError>)
        ensures
            r is Ok <==> file_name_of(self.source_path@) is Some,
            r matches Err(e) ==> e == EventFileError::NoFileName,
            r matches Ok(f) ==> (Some(f.file_name@) == file_name_of(self.source_path@)
                && f.is_temp_file == has_extension(f.file_name@) && f.source_path@
                == self.source_path@ && f.paths_view() == self.paths_view() && f.target_dir@
                == self.target_dir@ && f.target_path@ == self.target_path@),
    {
        match path_file_name(self.source_path.as_str()) {
            None => Err(EventFileError::NoFileName),
            Some(name) => {
                let temp = name_has_extension(name.as_str());
                let mut f = self;
                f.file_name = name;
                f.is_temp_file = temp;
                Ok(f)
            },
        }
    }

    /// Places the target under `prefix`, by the source's file name.
    pub fn build_target(self, prefix: &str) -> (r: Result<EventFile, EventFileError>)
        ensures
            r is Ok <==> file_name_of(self.source_path@) is Some,
            r matches Err(e) ==> e == EventFileError::NoFileName,
            r matches Ok(f) ==> (f.target_dir@ == prefix@ && f.target_path@ == joined(
                prefix@, file_name_of(self.source_path@)->0) && f.source_path@
                == self.source_path@ && f.paths_view() == self.paths_view() && f.file_name@
                == self.file_name@ && f.is_temp_file == self.is_temp_file),
    {
        match path_file_name(self.source_path.as_str()) {
            None => Err(EventFileError::NoFileName),
            Some(name) => {
                let target = join_path(prefix, name.as_str());
                let dir = String::from_str(prefix);
                let mut f = self;
                f.target_dir = dir;
                f.target_path = target;
                Ok(f)
            },
        }
    }
}

/// One file to bring back from a backup folder into the saved directory.
pub struct RestoreFile {
    pub source_path: String,
    pub target_path: String,
}

impl RestoreFile {
    /// The backup entry at `entry_path`, restored under `save_dir` by its
    /// file name.
    pub fn new(save_dir: &str, entry_path: &str) -> (r: Result<RestoreFile, EventFileError>)
        ensures
            r is Ok <==> file_name_of(entry_path@) is Some,
            r matches Err(e) ==> e == EventFileError::NoFileName,
            r matches Ok(f) ==> (f.source_path@ == entry_path@ && f.target_path@
                == joined(save_dir@, file_name_of(entry_path@)->0)),
    {
        match path_file_name(entry_path) {
            None => Err(EventFileError::NoFileName),
            Some(name) => Ok(
                RestoreFile {
                    source_path: String::from_str(entry_path),
                    target_path: join_path(save_dir, name.as_str()),
                },
            ),
        }
    }
}

/// The pending set of the rename pairing and the state of the backup cycle.
pub struct EventTracker {
    pub history: Vec<String>,
    pub idle: bool,
    /// When the current backup cycle was opened; it names the cycle's folder.
    pub current_cycle: Moment,
    /// When the last backup copy was made.
    pub last_backup: Moment,
}

impl EventTracker {
    /// The pending source paths, oldest first.
    pub open spec fn pending(&self) -> Seq<Seq<char>> {
        self.history@.map_values(|p: String| p@)
    }

    pub open spec fn wf(&self) -> bool {
        self.current_cycle.wf() && self.last_backup.wf()
    }

    /// An idle tracker with nothing pending, started at `now`.
    pub fn new(now: Moment) -> (r: EventTracker)
        requires
            now.wf(),
        ensures
            r.wf(),
            r.pending().len() == 0,
            r.idle,
            r.current_cycle == now,
            r.last_backup == now,
    {
        let r = EventTracker { history: Vec::new(), idle: true, current_cycle: now, last_backup: now };
        assert(r.pending() =~= Seq::<Seq<char>>::empty());
        r
    }

    pub fn push(&mut self, event: String)
        ensures
            final(self).pending() == old(self).pending().push(event@),
            final(self).idle == old(self).idle,
            final(self).current_cycle == old(self).current_cycle,
            final(self).last_backup == old(self).last_backup,
    {
        let ghost e = event@;
        self.history.push(event);
        assert(self.pending() =~= old(self).pending().push(e));
    }

    /// Drops the newest pending path, if any.
    pub fn pop(&mut self)
        ensures
            final(self).pending() == if old(self).pending().len() == 0 {
                old(self).pending()
            } else {
                old(self).pending().drop_last()
            },
            final(self).idle == old(self).idle,
            final(self).current_cycle == old(self).current_cycle,
            final(self).last_backup == old(self).last_backup,
    {
        let _ = self.history.pop();
        assert(self.pending() =~= if old(self).pending().len() == 0 {
            old(self).pending()
        } else {
            old(self).pending().drop_last()
        });
    }

    /// The newest pending path.
    pub fn last(&self) -> (r: Option<&String>)
        ensures
            r is Some <==> self.pending().len() > 0,
            r matches Some(p) ==> p@ == self.pending().last(),
    {
        let n = self.history.len();
        if n == 0 {
            None
        } else {
            Some(&self.history[n - 1])
        }
    }

    pub fn is_idle(&self) -> (r: bool)
        ensures
            r == self.idle,
    {
        self.idle
    }

    /// Opens a new backup cycle at `now`.
    pub fn start_cycle(&mut self, now: Moment)
        ensures
            !final(self).idle,
            final(self).current_cycle == now,
            final(self).last_backup == now,
            final(self).pending() == old(self).pending(),
    {
        self.idle = false;
        self.update_current_cycle(now);
        self.update_last_backup(now);
    }

    fn update_current_cycle(&mut self, now: Moment)
        ensures
            final(self).current_cycle == now,
            final(self).idle == old(self).idle,
            final(self).last_backup == old(self).last_backup,
            final(self).pending() == old(self).pending(),
    {
        self.current_cycle = now;
    }

    pub fn update_last_backup(&mut self, now: Moment)
        ensures
            final(self).last_backup == now,
            final(self).idle == old(self).idle,
            final(self).current_cycle == old(self).current_cycle,
            final(self).pending() == old(self).pending(),
    {
        self.last_backup = now;
    }

    /// Milliseconds from the last backup to `now`.
    pub fn duration_since_last_backup(&self, now: Moment) -> (r: i128)
        ensures
            r == now.millis - self.last_backup.millis,
    {
        now.millis as i128 - self.last_backup.millis as i128
    }
}

} // verus!
