//! The icons of the volume widget.
use vstd::prelude::*;

verus! {

/// Icons used by the volume widget
#[derive(Debug)]
pub struct VolumeIcons {
    pub percentages: Vec<String>,
    ///displayed if the device is muted
    pub muted: String,
}

impl Default for VolumeIcons {
    fn default() -> (r: Self)
        ensures
            r.percentages@.len() == 3,
            r.percentages@[0]@ == "奄"@,
            r.percentages@[1]@ == "奔"@,
            r.percentages@[2]@ == "墳"@,
            r.muted@ == "ﱝ"@,
    {
        let mut percentages = Vec::new();
        percentages.push(String::from_str("奄"));
        percentages.push(String::from_str("奔"));
        percentages.push(String::from_str("墳"));
        Self { percentages, muted: String::from_str("ﱝ") }
    }
}

} // verus!
