//! The network widget: its icons and the text it shows for an interface.
use crate::utils::strings::{
    lemma_replace_absent, lemma_replace_other_placeholder,
    lemma_replace_percent_free, lemma_replace_whole, replace, spec_contains, spec_decimal,
    spec_replace, str_eq,
};
use vstd::prelude::*;

verus! {

/// Icons used by the network widget
#[derive(Debug)]
pub struct NetworkIcons {
    ///displayed if the interface is wireless
    pub wireless: String,
    ///displayed if the interface is wired
    pub ethernet: String,
    ///displayed if the interface is connected
    pub online: String,
    ///displayed if the interface is not connected
    pub offline: String,
}

impl Default for NetworkIcons {
    fn default() -> (r: Self)
        ensures
            r.wireless@ == "W"@,
            r.ethernet@ == "E"@,
            r.online@ == "Connected"@,
            r.offline@ == "Offline"@,
    {
        Self {
            wireless: String::from_str("W"),
            ethernet: String::from_str("E"),
            online: String::from_str("Connected"),
            offline: String::from_str("Offline"),
        }
    }
}

/// An interface is up when its `operstate` file reads `up` and a line break.
pub fn is_up(operstate: &str) -> (r: bool)
    ensures
        r == (operstate@ == "up\n"@),
{
    str_eq(operstate, "up\n")
}

/// The network text: `No interface` when the interface cannot be read;
/// otherwise `%n` replaced by its name, `%s` by the online or offline
/// icon, and `%t` by the wireless or ethernet icon.
pub open spec fn spec_network_text(
    format: Seq<char>,
    interface: Seq<char>,
    icons: NetworkIcons,
    stats: Option<(bool, bool)>,
) -> Seq<char> {
    match stats {
        None => "No interface"@,
        Some((wireless, online)) => {
            let a = spec_replace(format, "%n"@, interface);
            let b = spec_replace(a, "%s"@, if online { icons.online@ } else { icons.offline@ });
            spec_replace(b, "%t"@, if wireless { icons.wireless@ } else { icons.ethernet@ })
        },
    }
}

/// Builds the network text from what was read of the interface: whether it
/// is wireless and whether it is up.
pub fn network_text(
    format: &str,
    interface: &str,
    icons: &NetworkIcons,
    stats: Option<(bool, bool)>,
) -> (r: String)
    ensures
        r@ == spec_network_text(format@, interface@, *icons, stats),
{
    proof {
        reveal_strlit("%n");
        reveal_strlit("%s");
        reveal_strlit("%t");
    }
    match stats {
        None => String::from_str("No interface"),
        Some((wireless, online)) => {
            let a = replace(format, "%n", interface);
            let status = if online {
                icons.online.as_str()
            } else {
                icons.offline.as_str()
            };
            let b = replace(a.as_str(), "%s", status);
            let kind = if wireless {
                icons.wireless.as_str()
            } else {
                icons.ethernet.as_str()
            };
            replace(b.as_str(), "%t", kind)
        },
    }
}

/// The wireless text: `No interface` when the interface cannot be read;
/// otherwise `%i` replaced by its name, `%e` by the ESSID and `%q` by the
/// signal quality.
pub open spec fn spec_wlan_text(
    format: Seq<char>,
    interface: Seq<char>,
    info: Option<(Seq<char>, u8)>,
) -> Seq<char> {
    match info {
        None => "No interface"@,
        Some((essid, quality)) => {
            let a = spec_replace(format, "%i"@, interface);
            let b = spec_replace(a, "%e"@, essid);
            spec_replace(b, "%q"@, crate::utils::strings::spec_decimal(quality as nat))
        },
    }
}

/// Builds the wireless text from the ESSID and signal quality read.
pub fn wlan_text(format: &str, interface: &str, info: Option<(&str, u8)>) -> (r: String)
    ensures
        r@ == spec_wlan_text(
            format@,
            interface@,
            match info {
                Some((e, q)) => Some((e@, q)),
                None => None,
            },
        ),
{
    proof {
        reveal_strlit("%i");
        reveal_strlit("%e");
        reveal_strlit("%q");
    }
    match info {
        None => String::from_str("No interface"),
        Some((essid, quality)) => {
            let a = replace(format, "%i", interface);
            let b = replace(a.as_str(), "%e", essid);
            let q = crate::utils::strings::decimal(quality as u64);
            replace(b.as_str(), "%q", q.as_str())
        },
    }
}

/// What the network text shows of the interface's state: with the stats
/// `(wireless, up)`, `%t` shows the wireless icon exactly when the interface
/// is wireless (else the ethernet one), `%s` the online icon exactly when it
/// is up (else the offline one; when neither icon holds `%t`), and `%n` the
/// interface's name (when it holds no `%`). Without stats the text says so.
pub proof fn lemma_network_text_fields(
    format: Seq<char>,
    interface: Seq<char>,
    icons: NetworkIcons,
    wireless: bool,
    up: bool,
)
    ensures
        spec_network_text("%t"@, interface, icons, Some((wireless, up))) == if wireless {
            icons.wireless@
        } else {
            icons.ethernet@
        },
        !spec_contains(icons.online@, "%t"@) && !spec_contains(icons.offline@, "%t"@)
            ==> spec_network_text("%s"@, interface, icons, Some((wireless, up))) == if up {
            icons.online@
        } else {
            icons.offline@
        },
        (forall|i: int| 0 <= i < interface.len() ==> interface[i] != '%') ==> spec_network_text(
            "%n"@,
            interface,
            icons,
            Some((wireless, up)),
        ) == interface,
        spec_network_text(format, interface, icons, None) == "No interface"@,
{
    reveal_strlit("%n");
    reveal_strlit("%s");
    reveal_strlit("%t");
    let n = "%n"@;
    let st = "%s"@;
    let t = "%t"@;
    assert(n[1] != st[1] && n[1] != t[1] && st[1] != t[1]);
    let status = if up {
        icons.online@
    } else {
        icons.offline@
    };
    let kind = if wireless {
        icons.wireless@
    } else {
        icons.ethernet@
    };
    // `%t`
    lemma_replace_other_placeholder(t, n, interface);
    lemma_replace_other_placeholder(t, st, status);
    lemma_replace_whole(t, kind);
    // `%s`
    lemma_replace_other_placeholder(st, n, interface);
    lemma_replace_whole(st, status);
    if !spec_contains(icons.online@, t) && !spec_contains(icons.offline@, t) {
        lemma_replace_absent(status, t, kind);
    }
    // `%n`
    lemma_replace_whole(n, interface);
    if forall|i: int| 0 <= i < interface.len() ==> interface[i] != '%' {
        lemma_replace_percent_free(interface, st, status);
        lemma_replace_percent_free(interface, t, kind);
    }
}

/// What the wireless text shows: `%q` the signal quality in decimal, `%e`
/// the essid (when it holds no `%q`) and `%i` the interface's name (when it
/// holds no `%`). Without information the text says so.
pub proof fn lemma_wlan_text_fields(
    format: Seq<char>,
    interface: Seq<char>,
    essid: Seq<char>,
    quality: u8,
)
    ensures
        spec_wlan_text("%q"@, interface, Some((essid, quality))) == spec_decimal(quality as nat),
        !spec_contains(essid, "%q"@) ==> spec_wlan_text("%e"@, interface, Some((essid, quality)))
            == essid,
        (forall|i: int| 0 <= i < interface.len() ==> interface[i] != '%') ==> spec_wlan_text(
            "%i"@,
            interface,
            Some((essid, quality)),
        ) == interface,
        spec_wlan_text(format, interface, None) == "No interface"@,
{
    reveal_strlit("%i");
    reveal_strlit("%e");
    reveal_strlit("%q");
    let i_ = "%i"@;
    let e = "%e"@;
    let q = "%q"@;
    assert(i_[1] != e[1] && i_[1] != q[1] && e[1] != q[1]);
    let d = spec_decimal(quality as nat);
    // `%q`
    lemma_replace_other_placeholder(q, i_, interface);
    lemma_replace_other_placeholder(q, e, essid);
    lemma_replace_whole(q, d);
    // `%e`
    lemma_replace_other_placeholder(e, i_, interface);
    lemma_replace_whole(e, essid);
    if !spec_contains(essid, q) {
        lemma_replace_absent(essid, q, d);
    }
    // `%i`
    lemma_replace_whole(i_, interface);
    if forall|k: int| 0 <= k < interface.len() ==> interface[k] != '%' {
        lemma_replace_percent_free(interface, e, essid);
        lemma_replace_percent_free(interface, q, d);
    }
}

} // verus!
