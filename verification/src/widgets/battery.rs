//! The battery widget: its icons, where it finds the battery, and which
//! icon it shows.
use crate::utils::strings::{contains, spec_contains, str_eq};
use vstd::prelude::*;

verus! {

/// Icons used by the battery widget
#[derive(Debug)]
pub struct BatteryIcons {
    pub percentages: [String; 10],
    ///displayed if the device is charging
    pub charging: String,
}

impl Default for BatteryIcons {
    fn default() -> (r: Self)
        ensures
            r.percentages[0]@ == ""@,
            r.percentages[1]@ == ""@,
            r.percentages[2]@ == ""@,
            r.percentages[3]@ == ""@,
            r.percentages[4]@ == ""@,
            r.percentages[5]@ == ""@,
            r.percentages[6]@ == ""@,
            r.percentages[7]@ == ""@,
            r.percentages[8]@ == ""@,
            r.percentages[9]@ == ""@,
            r.charging@ == "🗲"@,
    {
        Self {
            percentages: [
                String::from_str(""),
                String::from_str(""),
                String::from_str(""),
                String::from_str(""),
                String::from_str(""),
                String::from_str(""),
                String::from_str(""),
                String::from_str(""),
                String::from_str(""),
                String::from_str(""),
            ],
            charging: String::from_str("🗲"),
        }
    }
}

impl BatteryIcons {
    /// The icon shown: the charging icon while the battery's status reads
    /// `Charging`, else the icon of the charge's tenth `index`.
    pub fn icon(&self, status: Option<&str>, index: usize) -> (r: &String)
        requires
            index < 10,
        ensures
            *r == if status matches Some(s) && s@ == "Charging"@ {
                self.charging
            } else {
                self.percentages[index as int]
            },
    {
        let charging = match status {
            Some(s) => str_eq(s, "Charging"),
            None => false,
        };
        if charging {
            &self.charging
        } else {
            &self.percentages[index]
        }
    }
}

/// Why the battery widget cannot start.
#[derive(Debug, Clone, Copy, PartialEq, Eq, Structural)]
pub enum Error {
    /// No power supply of the system is a battery.
    NoBattery,
}

/// The first power supply whose path names a battery (holds `BAT`).
pub fn find_battery(paths: &Vec<String>) -> (r: Result<String, Error>)
    ensures
        match r {
            Ok(p) => exists|i: int|
                0 <= i < paths@.len() && p@ == paths@[i]@ && spec_contains(paths@[i]@, "BAT"@)
                    && forall|j: int| 0 <= j < i ==> !spec_contains(paths@[j]@, "BAT"@),
            Err(e) => e == Error::NoBattery && forall|j: int|
                0 <= j < paths@.len() ==> !spec_contains(paths@[j]@, "BAT"@),
        },
{
    let mut i: usize = 0;
    while i < paths.len()
        invariant
            i <= paths@.len(),
            forall|j: int| 0 <= j < i ==> !spec_contains(paths@[j]@, "BAT"@),
        decreases paths@.len() - i,
    {
        if contains(paths[i].as_str(), "BAT") {
            return Ok(paths[i].clone());
        }
        i = i + 1;
    }
    Err(Error::NoBattery)
}

/// A value read from the battery's files, without its last character (the
/// line break the files end with).
pub fn strip_last_char(value: &str) -> (r: String)
    ensures
        r@ == if value@.len() == 0 {
            value@
        } else {
            value@.drop_last()
        },
{
    let n = value.unicode_len();
    if n == 0 {
        return String::from_str(value);
    }
    String::from_str(value.substring_char(0, n - 1))
}

} // verus!
