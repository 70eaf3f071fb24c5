//! The run configuration: the target directory, the two extension filters
//! and the verbosity flag. A configuration is immutable once built.

use vstd::prelude::*;

verus! {

/// What one run works with. `relevant` is the allow-list: when it is empty,
/// every extension is eligible; otherwise only the listed ones are. `ignored`
/// is the deny-list and always takes precedence. Both lists are expected to
/// hold lowercase extensions without the dot, as only those can match a
/// computed (lowercased) extension.
pub struct Config {
    pub directory: String,
    pub relevant: Vec<String>,
    pub ignored: Vec<String>,
    pub verbose: bool,
}

impl Config {
    /// The allow-list entries as character sequences.
    pub open spec fn relevant_exts(self) -> Seq<Seq<char>> {
        self.relevant@.map_values(|s: String| s@)
    }

    /// The deny-list entries as character sequences.
    pub open spec fn ignored_exts(self) -> Seq<Seq<char>> {
        self.ignored@.map_values(|s: String| s@)
    }

    /// Builds a configuration from its four parts.
    pub fn new(directory: String, relevant: Vec<String>, ignored: Vec<String>, verbose: bool) -> (c:
        Config)
        ensures
            c.directory == directory,
            c.relevant == relevant,
            c.ignored == ignored,
            c.verbose == verbose,
    {
        Config { directory, relevant, ignored, verbose }
    }
}

/// Whether some string of `list` spells exactly the characters of `ext`.
pub fn list_has_ext(list: &Vec<String>, ext: &Vec<char>) -> (r: bool)
    ensures
        r == list@.map_values(|s: String| s@).contains(ext@),
{
    let ghost mapped = list@.map_values(|s: String| s@);
    let mut i: usize = 0;
    while i < list.len()
        invariant
            mapped == list@.map_values(|s: String| s@),
            i <= list@.len(),
            forall|j: int| 0 <= j < i ==> mapped[j] != ext@,
        decreases list@.len() - i,
    {
        if crate::extension::chars_eq_str(ext, list[i].as_str()) {
            assert(mapped[i as int] == ext@);
            return true;
        }
        i += 1;
    }
    assert(!mapped.contains(ext@));
    false
}

} // verus!
