//! A simulated file: a name, its bytes and whether it is open, with opening and
//! closing that fail once in a while.
use rand::Rng;
use vstd::prelude::*;
use vstd::string::StringExecFns;

verus! {

/// Whether a file is open.
#[derive(Debug, PartialEq, Eq, Structural)]
pub enum FileState {
    Open,
    Closed,
}

/// Represents a File that can live in any file system.
#[derive(Debug)]
pub struct File {
    pub name: String,
    data: Vec<u8>,
    pub state: FileState,
}

/// Calls `rand::Rng::gen_ratio(1, denominator)` on `rand::thread_rng()`: `true`
/// with chance one in `denominator`. Claimed: with `denominator == 1` the answer
/// is `true` (rand documents this); otherwise nothing is claimed of the outcome.
#[verifier::external_body]
fn one_in(denominator: u32) -> (hit: bool)
    requires
        denominator >= 1,
    ensures
        denominator == 1 ==> hit,
{
    rand::thread_rng().gen_ratio(1, denominator)
}

/// The text shown for a file state.
pub open spec fn state_text(state: FileState) -> Seq<char> {
    match state {
        FileState::Open => "OPEN"@,
        FileState::Closed => "CLOSED"@,
    }
}

impl FileState {
    /// The state as text: `OPEN` or `CLOSED`.
    pub fn to_string(&self) -> (text: String)
        ensures
            text@ == state_text(*self),
    {
        match self {
            FileState::Open => String::from_str("OPEN"),
            FileState::Closed => String::from_str("CLOSED"),
        }
    }
}

impl File {
    /// The bytes the file holds.
    pub closed spec fn contents(&self) -> Seq<u8> {
        self.data@
    }

    /// The file's name.
    pub closed spec fn name_text(&self) -> Seq<char> {
        self.name@
    }

    /// Whether the file is open.
    pub closed spec fn status(&self) -> FileState {
        self.state
    }

    /// Creates a new, empty, closed `File`.
    pub fn new(name: &str) -> (f: File)
        ensures
            f.name_text() == name@,
            f.contents().len() == 0,
            f.status() == FileState::Closed,
    {
        File { name: String::from_str(name), data: Vec::new(), state: FileState::Closed }
    }

    /// A closed file named `name` holding a copy of `data`.
    pub fn new_with_data(name: &str, data: &Vec<u8>) -> (f: File)
        ensures
            f.name_text() == name@,
            f.contents() == data@,
            f.status() == FileState::Closed,
    {
        let mut file = File::new(name);
        file.data = data.clone();
        assert(file.data@ =~= data@);
        file
    }

    /// The length of the file in bytes.
    pub fn len(&self) -> (n: usize)
        ensures
            n == self.contents().len(),
    {
        self.data.len()
    }

    /// The name of the file.
    pub fn name(&self) -> (name: String)
        ensures
            name@ == self.name_text(),
    {
        self.name.clone()
    }

    /// Appends the file's bytes to `save_to` and returns how many there were.
    pub fn read(&self, save_to: &mut Vec<u8>) -> (r: Result<usize, String>)
        ensures
            r matches Ok(n) && n == self.contents().len(),
            final(save_to)@ == old(save_to)@ + self.contents(),
    {
        let mut tmp = self.data.clone();
        assert(tmp@ =~= self.data@);
        let read_length = tmp.len();
        save_to.reserve(read_length);
        save_to.append(&mut tmp);
        Ok(read_length)
    }

    /// The file shown as `<name (STATE)>`.
    pub fn to_string(&self) -> (text: String)
        ensures
            text@ == "<"@ + self.name_text() + " ("@ + state_text(self.status()) + ")>"@,
    {
        let mut text = String::from_str("<");
        text.append(self.name.as_str());
        text.append(" (");
        let state = self.state.to_string();
        text.append(state.as_str());
        text.append(")>");
        text
    }
}

/// Opening `f` when the system has (`refused`) or has not refused it: refused
/// gives the error "Permission Denied"; otherwise the same file, now open.
pub fn open_unless(f: File, refused: bool) -> (r: Result<File, String>)
    ensures
        refused ==> (r matches Err(e) && e@ == "Permission Denied"@),
        !refused ==> (r matches Ok(g) && g.name_text() == f.name_text() && g.contents() == f.contents()
            && g.status() == FileState::Open),
{
    let mut f = f;
    if refused {
        return Err(String::from_str("Permission Denied"));
    }
    f.state = FileState::Open;
    Ok(f)
}

/// Closing `f` when the system has (`failed`) or has not failed to: failure gives
/// the error "An error occured"; otherwise the same file, now closed.
pub fn close_unless(f: File, failed: bool) -> (r: Result<File, String>)
    ensures
        failed ==> (r matches Err(e) && e@ == "An error occured"@),
        !failed ==> (r matches Ok(g) && g.name_text() == f.name_text() && g.contents() == f.contents()
            && g.status() == FileState::Closed),
{
    let mut f = f;
    if failed {
        return Err(String::from_str("An error occured"));
    }
    f.state = FileState::Closed;
    Ok(f)
}

/// The odds against a simulated system call: it fails once in this many tries.
pub const FAILURE_ODDS: u32 = 10_000;

/// Opens `f`; once in ten thousand tries (`FAILURE_ODDS`) the system refuses with
/// "Permission Denied".
pub fn open(f: File) -> (r: Result<File, String>)
    ensures
        r matches Err(e) ==> e@ == "Permission Denied"@,
        r matches Ok(g) ==> g.name_text() == f.name_text() && g.contents() == f.contents() && g.status()
            == FileState::Open,
{
    let refused = one_in(FAILURE_ODDS);
    open_unless(f, refused)
}

/// Closes `f`; once in ten thousand tries (`FAILURE_ODDS`) this fails with
/// "An error occured".
pub fn close(f: File) -> (r: Result<File, String>)
    ensures
        r matches Err(e) ==> e@ == "An error occured"@,
        r matches Ok(g) ==> g.name_text() == f.name_text() && g.contents() == f.contents() && g.status()
            == FileState::Closed,
{
    let failed = one_in(FAILURE_ODDS);
    close_unless(f, failed)
}

/// Closing what was opened gives back the file as it was, closed, and reading
/// never changes a file.
pub proof fn lemma_open_close_round_trip(f: File, g: File, h: File)
    requires
        g.name_text() == f.name_text() && g.contents() == f.contents() && g.status() == FileState::Open,
        h.name_text() == g.name_text() && h.contents() == g.contents() && h.status() == FileState::Closed,
    ensures
        h.name_text() == f.name_text(),
        h.contents() == f.contents(),
        h.status() == FileState::Closed,
{
}

} // verus!
