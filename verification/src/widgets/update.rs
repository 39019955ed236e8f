//! The update widget: the sources it asks, and its text.
use crate::utils::strings::{join, spec_join};
use vstd::prelude::*;

verus! {

/// The apt package manager as a source of updates.
#[derive(Debug)]
pub struct Apt {}

impl Apt {
    pub fn new() -> (r: Box<Self>) {
        Box::new(Self {})
    }

    /// The name shown when apt has updates.
    pub fn message(&self) -> (r: String)
        ensures
            r@ == "apt"@,
    {
        String::from_str("apt")
    }
}

/// The output has a second line: its first line break is not its last
/// character.
pub open spec fn has_second_line(output: Seq<char>) -> bool {
    exists|i: int|
        0 <= i < output.len() - 1 && output[i] == '\n' && forall|j: int|
            0 <= j < i ==> output[j] != '\n'
}

/// `apt list --upgradable` prints a header line and then one line per
/// package that can be upgraded: there are updates when a second line exists.
pub fn apt_lists_upgrades(output: &str) -> (r: bool)
    ensures
        r == has_second_line(output@),
{
    let n = output.unicode_len();
    let mut i: usize = 0;
    while i < n
        invariant
            n == output@.len(),
            i <= n,
            forall|j: int| 0 <= j < i ==> output@[j] != '\n',
        decreases n - i,
    {
        if output.get_char(i) == '\n' {
            return i + 1 < n;
        }
        i = i + 1;
    }
    false
}

/// The update text: the names of the sources with updates, separated by
/// ` - `.
pub fn update_text(sources: &Vec<String>) -> (r: String)
    ensures
        r@ == spec_join(sources@.map_values(|s: String| s@), " - "@),
{
    join(sources, " - ")
}

/// The update text names the sources in order with ` - ` between them:
/// nothing for no source, the one name for one source, and for one more
/// source the text so far, the separator and its name.
pub proof fn lemma_update_text_shape(names: Seq<Seq<char>>, name: Seq<char>)
    ensures
        spec_join(Seq::<Seq<char>>::empty(), " - "@) == Seq::<char>::empty(),
        spec_join(seq![name], " - "@) == name,
        names.len() > 0 ==> spec_join(names.push(name), " - "@) == spec_join(names, " - "@)
            + " - "@ + name,
{
    assert(names.push(name).drop_last() =~= names);
}

} // verus!
