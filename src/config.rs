use crate::model::ScratchRule;
use vstd::prelude::*;
use vstd::string::*;

verus! {

/// The settings of a monitoring session.
pub struct AppConf {
    /// The directory watched for saves.
    pub save_dir: String,
    /// The root under which backup cycles are written.
    pub backup_dir: String,
    /// Seconds without a backup after which the next save opens a new cycle.
    pub cycle_interval: i64,
    /// Which saved files are an editor's scratch files.
    pub scratch: ScratchRule,
}

/// `a` and `b` hold the same text.
fn same_text(a: &str, b: &str) -> (r: bool)
    ensures
        r == (a@ == b@),
{
    let n = a.unicode_len();
    if n != b.unicode_len() {
        return false;
    }
    let mut i: usize = 0;
    while i < n
        invariant
            n == a@.len(),
            n == b@.len(),
            i <= n,
            a@.subrange(0, i as int) == b@.subrange(0, i as int),
        decreases n - i,
    {
        if a.get_char(i) != b.get_char(i) {
            return false;
        }
        assert(a@.subrange(0, i + 1) =~= a@.subrange(0, i as int).push(a@[i as int]));
        assert(b@.subrange(0, i + 1) =~= b@.subrange(0, i as int).push(b@[i as int]));
        i = i + 1;
    }
    assert(a@ =~= a@.subrange(0, n as int));
    assert(b@ =~= b@.subrange(0, n as int));
    true
}

/// The commands the tool knows: `monitor` and `restore`.
pub open spec fn is_command(s: Seq<char>) -> bool {
    s == "monitor"@ || s == "restore"@
}

/// Accepts the two known commands; anything else is an invalid command.
pub fn validate_arg(command: &str) -> (r: Result<(), String>)
    ensures
        r is Ok <==> is_command(command@),
        r matches Err(m) ==> m@ == "Invalid command"@,
{
    if same_text(command, "monitor") || same_text(command, "restore") {
        Ok(())
    } else {
        Err(String::from_str("Invalid command"))
    }
}

} // verus!
