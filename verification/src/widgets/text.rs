//! What the text widgets compute without drawing: their padding, and the
//! texts of the memory and disk widgets.
use crate::utils::{bytes_to_closest, lemma_bytes_to_closest_percent_free, spec_bytes_to_closest};
use crate::utils::strings::{
    lemma_replace_other_placeholder, lemma_replace_percent_free, lemma_replace_whole, replace,
    spec_replace,
};
use vstd::prelude::*;

verus! {

/// A text widget takes no padding while its text is empty.
pub fn text_padding(text: &str, padding: u32) -> (r: u32)
    ensures
        r == if text@.len() == 0 {
            0
        } else {
            padding
        },
{
    if text.unicode_len() == 0 {
        0
    } else {
        padding
    }
}

/// The memory text: `%p` replaced by the usage percentage (already
/// rendered), `%t`, `%a`, `%u` and `%f` by the total, available, used and
/// free memory in their closest unit.
pub open spec fn spec_memory_text(
    format: Seq<char>,
    percent: Seq<char>,
    total: u64,
    available: u64,
    used: u64,
    free: u64,
) -> Seq<char> {
    let a = spec_replace(format, "%p"@, percent);
    let b = spec_replace(a, "%t"@, spec_bytes_to_closest(total as nat));
    let c = spec_replace(b, "%a"@, spec_bytes_to_closest(available as nat));
    let d = spec_replace(c, "%u"@, spec_bytes_to_closest(used as nat));
    spec_replace(d, "%f"@, spec_bytes_to_closest(free as nat))
}

pub fn memory_text(
    format: &str,
    percent: &str,
    total: u64,
    available: u64,
    used: u64,
    free: u64,
) -> (r: String)
    ensures
        r@ == spec_memory_text(format@, percent@, total, available, used, free),
{
    proof {
        reveal_strlit("%p");
        reveal_strlit("%t");
        reveal_strlit("%a");
        reveal_strlit("%u");
        reveal_strlit("%f");
    }
    let a = replace(format, "%p", percent);
    let b = replace(a.as_str(), "%t", bytes_to_closest(total).as_str());
    let c = replace(b.as_str(), "%a", bytes_to_closest(available).as_str());
    let d = replace(c.as_str(), "%u", bytes_to_closest(used).as_str());
    replace(d.as_str(), "%f", bytes_to_closest(free).as_str())
}

/// The disk text: `%p` replaced by the used percentage (already rendered),
/// `%u`, `%f` and `%t` by the used, free and total space in their closest
/// unit.
pub open spec fn spec_disk_text(
    format: Seq<char>,
    percent: Seq<char>,
    used: u64,
    free: u64,
    total: u64,
) -> Seq<char> {
    let a = spec_replace(format, "%p"@, percent);
    let b = spec_replace(a, "%u"@, spec_bytes_to_closest(used as nat));
    let c = spec_replace(b, "%f"@, spec_bytes_to_closest(free as nat));
    spec_replace(c, "%t"@, spec_bytes_to_closest(total as nat))
}

pub fn disk_text(format: &str, percent: &str, used: u64, free: u64, total: u64) -> (r: String)
    ensures
        r@ == spec_disk_text(format@, percent@, used, free, total),
{
    proof {
        reveal_strlit("%p");
        reveal_strlit("%u");
        reveal_strlit("%f");
        reveal_strlit("%t");
    }
    let a = replace(format, "%p", percent);
    let b = replace(a.as_str(), "%u", bytes_to_closest(used).as_str());
    let c = replace(b.as_str(), "%f", bytes_to_closest(free).as_str());
    replace(c.as_str(), "%t", bytes_to_closest(total).as_str())
}

/// Each placeholder of the memory text shows its own value: `%t` the
/// total, `%a` the available, `%u` the used and `%f` the free memory, each in
/// its closest unit, and `%p` the percentage as given (when it holds no `%`).
pub proof fn lemma_memory_text_fields(
    percent: Seq<char>,
    total: u64,
    available: u64,
    used: u64,
    free: u64,
)
    ensures
        spec_memory_text("%t"@, percent, total, available, used, free) == spec_bytes_to_closest(
            total as nat,
        ),
        spec_memory_text("%a"@, percent, total, available, used, free) == spec_bytes_to_closest(
            available as nat,
        ),
        spec_memory_text("%u"@, percent, total, available, used, free) == spec_bytes_to_closest(
            used as nat,
        ),
        spec_memory_text("%f"@, percent, total, available, used, free) == spec_bytes_to_closest(
            free as nat,
        ),
        (forall|i: int| 0 <= i < percent.len() ==> percent[i] != '%') ==> spec_memory_text(
            "%p"@,
            percent,
            total,
            available,
            used,
            free,
        ) == percent,
{
    reveal_strlit("%p");
    reveal_strlit("%t");
    reveal_strlit("%a");
    reveal_strlit("%u");
    reveal_strlit("%f");
    let p = "%p"@;
    let t = "%t"@;
    let a = "%a"@;
    let u = "%u"@;
    let f = "%f"@;
    assert(p[1] != t[1] && p[1] != a[1] && p[1] != u[1] && p[1] != f[1]);
    assert(t[1] != a[1] && t[1] != u[1] && t[1] != f[1]);
    assert(a[1] != u[1] && a[1] != f[1] && u[1] != f[1]);
    let bt = spec_bytes_to_closest(total as nat);
    let ba = spec_bytes_to_closest(available as nat);
    let bu = spec_bytes_to_closest(used as nat);
    let bf = spec_bytes_to_closest(free as nat);
    lemma_bytes_to_closest_percent_free(total as nat);
    lemma_bytes_to_closest_percent_free(available as nat);
    lemma_bytes_to_closest_percent_free(used as nat);
    lemma_bytes_to_closest_percent_free(free as nat);
    // `%t`
    lemma_replace_other_placeholder(t, p, percent);
    lemma_replace_whole(t, bt);
    lemma_replace_percent_free(bt, a, ba);
    lemma_replace_percent_free(bt, u, bu);
    lemma_replace_percent_free(bt, f, bf);
    // `%a`
    lemma_replace_other_placeholder(a, p, percent);
    lemma_replace_other_placeholder(a, t, bt);
    lemma_replace_whole(a, ba);
    lemma_replace_percent_free(ba, u, bu);
    lemma_replace_percent_free(ba, f, bf);
    // `%u`
    lemma_replace_other_placeholder(u, p, percent);
    lemma_replace_other_placeholder(u, t, bt);
    lemma_replace_other_placeholder(u, a, ba);
    lemma_replace_whole(u, bu);
    lemma_replace_percent_free(bu, f, bf);
    // `%f`
    lemma_replace_other_placeholder(f, p, percent);
    lemma_replace_other_placeholder(f, t, bt);
    lemma_replace_other_placeholder(f, a, ba);
    lemma_replace_other_placeholder(f, u, bu);
    lemma_replace_whole(f, bf);
    // `%p`
    lemma_replace_whole(p, percent);
    if forall|i: int| 0 <= i < percent.len() ==> percent[i] != '%' {
        lemma_replace_percent_free(percent, t, bt);
        lemma_replace_percent_free(percent, a, ba);
        lemma_replace_percent_free(percent, u, bu);
        lemma_replace_percent_free(percent, f, bf);
    }
}

/// Each placeholder of the disk text shows its own value: `%u` the used,
/// `%f` the free and `%t` the total space, each in its closest unit, and `%p`
/// the percentage as given (when it holds no `%`).
pub proof fn lemma_disk_text_fields(percent: Seq<char>, used: u64, free: u64, total: u64)
    ensures
        spec_disk_text("%u"@, percent, used, free, total) == spec_bytes_to_closest(used as nat),
        spec_disk_text("%f"@, percent, used, free, total) == spec_bytes_to_closest(free as nat),
        spec_disk_text("%t"@, percent, used, free, total) == spec_bytes_to_closest(total as nat),
        (forall|i: int| 0 <= i < percent.len() ==> percent[i] != '%') ==> spec_disk_text(
            "%p"@,
            percent,
            used,
            free,
            total,
        ) == percent,
{
    reveal_strlit("%p");
    reveal_strlit("%u");
    reveal_strlit("%f");
    reveal_strlit("%t");
    let p = "%p"@;
    let u = "%u"@;
    let f = "%f"@;
    let t = "%t"@;
    assert(p[1] != u[1] && p[1] != f[1] && p[1] != t[1]);
    assert(u[1] != f[1] && u[1] != t[1] && f[1] != t[1]);
    let bu = spec_bytes_to_closest(used as nat);
    let bf = spec_bytes_to_closest(free as nat);
    let bt = spec_bytes_to_closest(total as nat);
    lemma_bytes_to_closest_percent_free(used as nat);
    lemma_bytes_to_closest_percent_free(free as nat);
    lemma_bytes_to_closest_percent_free(total as nat);
    // `%u`
    lemma_replace_other_placeholder(u, p, percent);
    lemma_replace_whole(u, bu);
    lemma_replace_percent_free(bu, f, bf);
    lemma_replace_percent_free(bu, t, bt);
    // `%f`
    lemma_replace_other_placeholder(f, p, percent);
    lemma_replace_other_placeholder(f, u, bu);
    lemma_replace_whole(f, bf);
    lemma_replace_percent_free(bf, t, bt);
    // `%t`
    lemma_replace_other_placeholder(t, p, percent);
    lemma_replace_other_placeholder(t, u, bu);
    lemma_replace_other_placeholder(t, f, bf);
    lemma_replace_whole(t, bt);
    // `%p`
    lemma_replace_whole(p, percent);
    if forall|i: int| 0 <= i < percent.len() ==> percent[i] != '%' {
        lemma_replace_percent_free(percent, u, bu);
        lemma_replace_percent_free(percent, f, bf);
        lemma_replace_percent_free(percent, t, bt);
    }
}

} // verus!
