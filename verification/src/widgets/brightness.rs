//! The brightness widget: its icons and where it reads the brightness.
use crate::{path_join, spec_path_join};
use crate::utils::strings::str_eq;
use vstd::prelude::*;

verus! {

/// Icons used by the brightness widget
#[derive(Debug)]
pub struct BrightnessIcons {
    pub percentages: Vec<String>,
}

impl Default for BrightnessIcons {
    fn default() -> (r: Self)
        ensures
            r.percentages@.len() == 4,
            r.percentages@[0]@ == ""@,
            r.percentages@[1]@ == ""@,
            r.percentages@[2]@ == ""@,
            r.percentages@[3]@ == ""@,
    {
        let mut percentages = Vec::new();
        percentages.push(String::from_str(""));
        percentages.push(String::from_str(""));
        percentages.push(String::from_str(""));
        percentages.push(String::from_str(""));
        Self { percentages }
    }
}

/// Why the brightness cannot be read.
#[derive(Debug, Clone, Copy, PartialEq, Eq, Structural)]
pub enum Error {
    /// The device folder lacks `brightness` or `max_brightness`.
    NoBrightnessFile,
}

/// Some entry of the folder has this name.
pub open spec fn has_entry(names: Seq<String>, name: Seq<char>) -> bool {
    exists|i: int| 0 <= i < names.len() && names[i]@ == name
}

/// The paths of the `brightness` and `max_brightness` files of a backlight
/// device folder, from the names of the folder's entries.
pub fn brightness_files(folder: &str, names: &Vec<String>) -> (r: Result<(String, String), Error>)
    ensures
        match r {
            Ok((b, m)) => has_entry(names@, "brightness"@) && has_entry(names@, "max_brightness"@)
                && b@ == spec_path_join(folder@, "brightness"@) && m@ == spec_path_join(
                folder@,
                "max_brightness"@,
            ),
            Err(e) => e == Error::NoBrightnessFile && !(has_entry(names@, "brightness"@)
                && has_entry(names@, "max_brightness"@)),
        },
{
    let mut brightness = false;
    let mut max_brightness = false;
    let mut i: usize = 0;
    while i < names.len()
        invariant
            i <= names@.len(),
            brightness == exists|j: int| 0 <= j < i && names@[j]@ == "brightness"@,
            max_brightness == exists|j: int| 0 <= j < i && names@[j]@ == "max_brightness"@,
        decreases names@.len() - i,
    {
        if str_eq(names[i].as_str(), "brightness") {
            brightness = true;
        }
        if str_eq(names[i].as_str(), "max_brightness") {
            max_brightness = true;
        }
        i = i + 1;
    }
    if brightness && max_brightness {
        Ok((path_join(folder, "brightness"), path_join(folder, "max_brightness")))
    } else {
        Err(Error::NoBrightnessFile)
    }
}

} // verus!
