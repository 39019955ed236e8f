//! The workspaces widget: the desktop names the window manager publishes,
//! which one is active, and which ones are hidden.
use crate::utils::strings::str_eq;
use vstd::prelude::*;
use vstd::utf8::{
    decode_utf8, encode_scalar, encode_utf8, encode_utf8_decode_utf8, encode_utf8_valid_utf8,
    valid_utf8,
};

verus! {

/// Calls `String::from_utf8`, which succeeds exactly when the bytes are
/// valid UTF-8 and then holds the characters they encode.
#[verifier::external_body]
fn utf8_string(bytes: Vec<u8>) -> (r: Option<String>)
    ensures
        r is Some <==> valid_utf8(bytes@),
        r matches Some(s) ==> s@ == decode_utf8(bytes@),
{
    String::from_utf8(bytes).ok()
}

/// The pieces of `bytes` between zero bytes, as `split` on zero gives them:
/// the last piece follows the last zero, and may be empty.
pub open spec fn zero_separated(bytes: Seq<u8>) -> Seq<Seq<u8>>
    decreases bytes.len(),
{
    if bytes.len() == 0 {
        seq![Seq::empty()]
    } else {
        let rest = zero_separated(bytes.drop_last());
        if bytes.last() == 0 {
            rest.push(Seq::empty())
        } else {
            rest.update(rest.len() - 1, rest.last().push(bytes.last()))
        }
    }
}

/// The pieces that are valid UTF-8, decoded, in order.
pub open spec fn decoded_pieces(pieces: Seq<Seq<u8>>) -> Seq<Seq<char>>
    decreases pieces.len(),
{
    if pieces.len() == 0 {
        Seq::empty()
    } else {
        decoded_pieces(pieces.drop_last()) + if valid_utf8(pieces.last()) {
            seq![decode_utf8(pieces.last())]
        } else {
            Seq::empty()
        }
    }
}

proof fn lemma_zero_separated_nonempty(bytes: Seq<u8>)
    ensures
        zero_separated(bytes).len() >= 1,
    decreases bytes.len(),
{
    if bytes.len() > 0 {
        lemma_zero_separated_nonempty(bytes.drop_last());
    }
}

/// The desktop names in the value of `_NET_DESKTOP_NAMES`: the pieces
/// between zero bytes that are valid UTF-8.
pub fn desktop_names(bytes: &Vec<u8>) -> (r: Vec<String>)
    ensures
        r@.map_values(|s: String| s@) == decoded_pieces(zero_separated(bytes@)),
{
    let mut names: Vec<String> = Vec::new();
    let mut piece: Vec<u8> = Vec::new();
    let mut i: usize = 0;
    let ghost done: Seq<Seq<u8>> = Seq::empty();
    while i < bytes.len()
        invariant
            i <= bytes@.len(),
            zero_separated(bytes@.take(i as int)) == done.push(piece@),
            names@.map_values(|s: String| s@) == decoded_pieces(done),
        decreases bytes@.len() - i,
    {
        proof {
            assert(bytes@.take(i + 1).drop_last() =~= bytes@.take(i as int));
            assert(bytes@.take(i + 1).last() == bytes@[i as int]);
        }
        if bytes[i] == 0 {
            let mut finished: Vec<u8> = Vec::new();
            std::mem::swap(&mut finished, &mut piece);
            let ghost finished_view = finished@;
            let decoded = utf8_string(finished);
            proof {
                assert(done.push(finished_view).drop_last() =~= done);
            }
            match decoded {
                Some(s) => {
                    names.push(s);
                    proof {
                        assert(names@.map_values(|s: String| s@) =~= decoded_pieces(done).push(
                            s@,
                        ));
                        assert(decoded_pieces(done.push(finished_view)) =~= decoded_pieces(done)
                            + seq![decode_utf8(finished_view)]);
                    }
                },
                None => {
                    proof {
                        assert(decoded_pieces(done.push(finished_view)) =~= decoded_pieces(done));
                    }
                },
            }
            proof {
                done = done.push(finished_view);
                assert(zero_separated(bytes@.take(i + 1)) =~= done.push(piece@));
            }
        } else {
            piece.push(bytes[i]);
            proof {
                assert(zero_separated(bytes@.take(i + 1)) =~= done.push(piece@));
            }
        }
        i = i + 1;
    }
    let ghost last = piece@;
    let decoded = utf8_string(piece);
    proof {
        assert(bytes@.take(bytes@.len() as int) =~= bytes@);
        assert(done.push(last).drop_last() =~= done);
    }
    match decoded {
        Some(s) => {
            names.push(s);
            proof {
                assert(names@.map_values(|s: String| s@) =~= decoded_pieces(done).push(s@));
                assert(decoded_pieces(done.push(last)) =~= decoded_pieces(done) + seq![
                    decode_utf8(last),
                ]);
            }
        },
        None => {
            proof {
                assert(decoded_pieces(done.push(last)) =~= decoded_pieces(done));
            }
        },
    }
    names
}

/// The value the window manager writes in `_NET_DESKTOP_NAMES`: each name
/// in UTF-8 followed by a zero byte.
pub open spec fn nul_terminated(names: Seq<Seq<char>>) -> Seq<u8>
    decreases names.len(),
{
    if names.len() == 0 {
        Seq::empty()
    } else {
        nul_terminated(names.drop_last()) + encode_utf8(names.last()) + seq![0u8]
    }
}

proof fn lemma_encode_scalar_nonzero(c: char)
    requires
        c != '\0',
    ensures
        forall|i: int| 0 <= i < encode_scalar(c as u32).len() ==> #[trigger] encode_scalar(c as u32)[i] != 0,
{
    let v = c as u32;
    vstd::utf8::char_is_scalar(c);
    assert(v != 0);
    assert(forall|y: u8| #[trigger] (0x80u8 | y) != 0) by (bit_vector);
    assert(forall|y: u8| #[trigger] (0xC0u8 | y) != 0) by (bit_vector);
    assert(forall|y: u8| #[trigger] (0xE0u8 | y) != 0) by (bit_vector);
    assert(forall|y: u8| #[trigger] (0xF0u8 | y) != 0) by (bit_vector);
    assert(1 <= v <= 0x7F ==> ((v & 0x7F) as u8) != 0) by (bit_vector);
}

proof fn lemma_encode_utf8_nonzero(chars: Seq<char>)
    requires
        !chars.contains('\0'),
    ensures
        forall|i: int| 0 <= i < encode_utf8(chars).len() ==> encode_utf8(chars)[i] != 0,
    decreases chars.len(),
{
    if chars.len() > 0 {
        assert(chars[0] != '\0');
        lemma_encode_scalar_nonzero(chars[0]);
        let rest = chars.drop_first();
        assert(!rest.contains('\0')) by {
            if rest.contains('\0') {
                let k = choose|k: int| 0 <= k < rest.len() && rest[k] == '\0';
                assert(chars[k + 1] == '\0');
            }
        }
        lemma_encode_utf8_nonzero(rest);
        let a = encode_scalar(chars[0] as u32);
        let b = encode_utf8(rest);
        assert(encode_utf8(chars) == a + b);
        assert forall|i: int| 0 <= i < (a + b).len() implies (a + b)[i] != 0 by {
            if i < a.len() {
                assert((a + b)[i] == a[i]);
            } else {
                assert((a + b)[i] == b[i - a.len()]);
            }
        }
    }
}

proof fn lemma_zero_separated_extend(bytes: Seq<u8>, piece: Seq<u8>)
    requires
        forall|i: int| 0 <= i < piece.len() ==> piece[i] != 0,
    ensures
        zero_separated(bytes + piece) == zero_separated(bytes).update(
            zero_separated(bytes).len() - 1,
            zero_separated(bytes).last() + piece,
        ),
    decreases piece.len(),
{
    lemma_zero_separated_nonempty(bytes);
    if piece.len() == 0 {
        assert(bytes + piece =~= bytes);
        assert(zero_separated(bytes).last() + piece =~= zero_separated(bytes).last());
        assert(zero_separated(bytes).update(
            zero_separated(bytes).len() - 1,
            zero_separated(bytes).last(),
        ) =~= zero_separated(bytes));
    } else {
        let init = piece.drop_last();
        lemma_zero_separated_extend(bytes, init);
        assert((bytes + piece).drop_last() =~= bytes + init);
        assert((bytes + piece).last() == piece.last());
        let z = zero_separated(bytes);
        let zi = z.update(z.len() - 1, z.last() + init);
        assert(zi.last() == z.last() + init);
        assert(zi.last().push(piece.last()) =~= z.last() + piece);
        assert(zi.update(zi.len() - 1, zi.last().push(piece.last())) =~= z.update(
            z.len() - 1,
            z.last() + piece,
        ));
    }
}

proof fn lemma_zero_separated_written(names: Seq<Seq<char>>)
    requires
        forall|i: int| 0 <= i < names.len() ==> !names[i].contains('\0'),
    ensures
        zero_separated(nul_terminated(names)) == names.map_values(|n: Seq<char>| encode_utf8(n)).push(
            Seq::<u8>::empty(),
        ),
    decreases names.len(),
{
    if names.len() == 0 {
        assert(nul_terminated(names) =~= Seq::<u8>::empty());
        assert(names.map_values(|n: Seq<char>| encode_utf8(n)).push(Seq::<u8>::empty()) =~= seq![
            Seq::<u8>::empty(),
        ]);
    } else {
        let init = names.drop_last();
        lemma_zero_separated_written(init);
        lemma_encode_utf8_nonzero(names.last());
        let before = nul_terminated(init);
        let e = encode_utf8(names.last());
        lemma_zero_separated_extend(before, e);
        let with_name = before + e;
        assert(nul_terminated(names) == with_name + seq![0u8]);
        assert((with_name + seq![0u8]).drop_last() =~= with_name);
        let m = init.map_values(|n: Seq<char>| encode_utf8(n));
        assert(m.push(Seq::<u8>::empty()).last() + e =~= e);
        assert(m.push(Seq::<u8>::empty()).update(m.len() as int, e) =~= m.push(e));
        assert(m.push(e) =~= names.map_values(|n: Seq<char>| encode_utf8(n)));
    }
}

proof fn lemma_decoded_encoded(names: Seq<Seq<char>>)
    ensures
        decoded_pieces(names.map_values(|n: Seq<char>| encode_utf8(n)).push(Seq::<u8>::empty()))
            == names.push(Seq::<char>::empty()),
    decreases names.len(),
{
    let m = names.map_values(|n: Seq<char>| encode_utf8(n));
    let p = m.push(Seq::<u8>::empty());
    assert(p.drop_last() =~= m);
    assert(valid_utf8(Seq::<u8>::empty()));
    assert(decode_utf8(Seq::<u8>::empty()) =~= Seq::<char>::empty());
    lemma_decoded_all(names);
    assert(decoded_pieces(p) =~= names.push(Seq::<char>::empty()));
}

proof fn lemma_decoded_all(names: Seq<Seq<char>>)
    ensures
        decoded_pieces(names.map_values(|n: Seq<char>| encode_utf8(n))) == names,
    decreases names.len(),
{
    let m = names.map_values(|n: Seq<char>| encode_utf8(n));
    if names.len() > 0 {
        lemma_decoded_all(names.drop_last());
        assert(m.drop_last() =~= names.drop_last().map_values(|n: Seq<char>| encode_utf8(n)));
        encode_utf8_valid_utf8(names.last());
        encode_utf8_decode_utf8(names.last());
        assert(decoded_pieces(m) =~= names);
    } else {
        assert(decoded_pieces(m) =~= names);
    }
}

/// The names the window manager writes, none of which holds a zero
/// character, are read back in order, followed by an empty name for what
/// follows the last zero byte.
pub proof fn lemma_desktop_names_read_back(names: Seq<Seq<char>>)
    requires
        forall|i: int| 0 <= i < names.len() ==> !names[i].contains('\0'),
    ensures
        decoded_pieces(zero_separated(nul_terminated(names))) == names.push(Seq::<char>::empty()),
{
    lemma_zero_separated_written(names);
    lemma_decoded_encoded(names);
}

/// Why the workspaces cannot be read.
#[derive(Debug, Clone, Copy, PartialEq, Eq, Structural)]
pub enum Error {
    /// The window manager published no current desktop.
    Ewmh,
    /// The filter of hidden workspaces is empty.
    EmptyFilter,
}

/// The current desktop: the first value of `_NET_CURRENT_DESKTOP`.
pub fn current_desktop(values: &Vec<u32>) -> (r: Result<u32, Error>)
    ensures
        values@.len() > 0 ==> r == Ok::<u32, Error>(values@[0]),
        values@.len() == 0 ==> r == Err::<u32, Error>(Error::Ewmh),
{
    if values.len() > 0 {
        Ok(values[0])
    } else {
        Err(Error::Ewmh)
    }
}

/// The workspaces with the one at `index`, if it exists, marked active.
pub fn mark_active(names: &Vec<String>, index: u32) -> (r: Vec<(String, bool)>)
    ensures
        r@.len() == names@.len(),
        forall|i: int|
            0 <= i < names@.len() ==> r@[i].0@ == names@[i]@ && r@[i].1 == (i == index as int),
{
    let mut r: Vec<(String, bool)> = Vec::new();
    let mut i: usize = 0;
    while i < names.len()
        invariant
            i <= names@.len(),
            r@.len() == i,
            forall|j: int| 0 <= j < i ==> r@[j].0@ == names@[j]@ && r@[j].1 == (j == index as int),
        decreases names@.len() - i,
    {
        r.push((names[i].clone(), i as u64 == index as u64));
        i = i + 1;
    }
    r
}

/// Whether `name` is one of the ignored workspaces.
pub open spec fn is_ignored(ignored: Seq<String>, name: Seq<char>) -> bool {
    exists|k: int| 0 <= k < ignored.len() && ignored[k]@ == name
}

/// The workspaces whose names are not ignored, in order.
pub open spec fn spec_shown(
    workspaces: Seq<(Seq<char>, bool)>,
    ignored: Seq<String>,
) -> Seq<(Seq<char>, bool)> {
    workspaces.filter(|w: (Seq<char>, bool)| !is_ignored(ignored, w.0))
}

fn is_ignored_exec(ignored: &Vec<String>, name: &str) -> (r: bool)
    ensures
        r == is_ignored(ignored@, name@),
{
    let mut k: usize = 0;
    while k < ignored.len()
        invariant
            k <= ignored@.len(),
            forall|j: int| 0 <= j < k ==> ignored@[j]@ != name@,
        decreases ignored@.len() - k,
    {
        if str_eq(ignored[k].as_str(), name) {
            return true;
        }
        k = k + 1;
    }
    false
}

/// Hides the ignored workspaces; an empty filter is an error.
pub fn filter_workspaces(workspaces: &Vec<(String, bool)>, ignored: &Vec<String>) -> (r: Result<
    Vec<(String, bool)>,
    Error,
>)
    ensures
        ignored@.len() == 0 ==> r matches Err(Error::EmptyFilter),
        ignored@.len() > 0 ==> (r matches Ok(v) && v@.map_values(|w: (String, bool)| (w.0@, w.1))
            == spec_shown(workspaces@.map_values(|w: (String, bool)| (w.0@, w.1)), ignored@)),
{
    if ignored.len() == 0 {
        return Err(Error::EmptyFilter);
    }
    let ghost all = workspaces@.map_values(|w: (String, bool)| (w.0@, w.1));
    let ghost keep = |w: (Seq<char>, bool)| !is_ignored(ignored@, w.0);
    let mut shown: Vec<(String, bool)> = Vec::new();
    let mut i: usize = 0;
    while i < workspaces.len()
        invariant
            i <= workspaces@.len(),
            all == workspaces@.map_values(|w: (String, bool)| (w.0@, w.1)),
            keep == (|w: (Seq<char>, bool)| !is_ignored(ignored@, w.0)),
            shown@.map_values(|w: (String, bool)| (w.0@, w.1)) == all.take(i as int).filter(keep),
        decreases workspaces@.len() - i,
    {
        proof {
            assert(all.take(i + 1).drop_last() =~= all.take(i as int));
            reveal_with_fuel(Seq::<_>::filter, 1);
        }
        let hidden = is_ignored_exec(ignored, workspaces[i].0.as_str());
        if !hidden {
            shown.push((workspaces[i].0.clone(), workspaces[i].1));
        }
        proof {
            assert(all.take(i + 1).last() == all[i as int]);
            assert(shown@.map_values(|w: (String, bool)| (w.0@, w.1)) =~= all.take(i + 1).filter(
                keep,
            ));
        }
        i = i + 1;
    }
    proof {
        assert(all.take(workspaces@.len() as int) =~= all);
    }
    Ok(shown)
}

/// An item is kept by a filter exactly when it occurs and passes it.
proof fn lemma_filter_membership<A>(s: Seq<A>, pred: spec_fn(A) -> bool, x: A)
    ensures
        s.filter(pred).contains(x) <==> s.contains(x) && pred(x),
    decreases s.len(),
{
    reveal(Seq::filter);
    if s.len() > 0 {
        let t = s.drop_last();
        lemma_filter_membership(t, pred, x);
        let ft = t.filter(pred);
        if s.contains(x) && pred(x) {
            let k = choose|k: int| 0 <= k < s.len() && s[k] == x;
            if k < t.len() {
                assert(t[k] == x);
                let m = choose|m: int| 0 <= m < ft.len() && ft[m] == x;
                assert(s.filter(pred)[m] == x);
            } else {
                assert(s.filter(pred)[ft.len() as int] == x);
            }
        }
        if s.filter(pred).contains(x) {
            let m = choose|m: int| 0 <= m < s.filter(pred).len() && s.filter(pred)[m] == x;
            if m < ft.len() {
                assert(ft[m] == x);
                assert(ft.contains(x));
                let k = choose|k: int| 0 <= k < t.len() && t[k] == x;
                assert(s[k] == x);
            } else {
                assert(s[s.len() - 1] == x);
            }
        }
    }
}

/// A workspace is shown exactly when it is one of the workspaces and no
/// ignored name is equal to its name: a workspace whose name differs from
/// every ignored name is kept, whatever the names share.
pub proof fn lemma_shown_exactly_unignored(
    workspaces: Seq<(Seq<char>, bool)>,
    ignored: Seq<String>,
    w: (Seq<char>, bool),
)
    ensures
        spec_shown(workspaces, ignored).contains(w) <==> (workspaces.contains(w) && forall|k: int|
            0 <= k < ignored.len() ==> ignored[k]@ != w.0),
{
    lemma_filter_membership(
        workspaces,
        |v: (Seq<char>, bool)| !is_ignored(ignored, v.0),
        w,
    );
}

} // verus!
