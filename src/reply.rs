use vstd::prelude::*;

verus! {

/// Whether `marker` occurs in `text` starting at position `i`.
pub open spec fn occurs_at(text: Seq<char>, marker: Seq<char>, i: int) -> bool {
    0 <= i && i + marker.len() <= text.len() && text.subrange(i, i + marker.len()) == marker
}

/// Strips `marker` from the front of `text` when it is there; leaves `text` unchanged otherwise.
pub open spec fn stripped(text: Seq<char>, marker: Seq<char>) -> Seq<char> {
    if occurs_at(text, marker, 0) {
        text.subrange(marker.len() as int, text.len() as int)
    } else {
        text
    }
}

/// Removes the response marker from the front of a reply, if the reply starts with it.
pub fn strip_marker(text: &str, marker: &str) -> (r: String)
    ensures
        r@ == stripped(text@, marker@),
{
    let tl = text.unicode_len();
    let ml = marker.unicode_len();
    if ml > tl {
        return text.to_string();
    }
    let mut i: usize = 0;
    while i < ml
        invariant
            ml == marker@.len(),
            tl == text@.len(),
            ml <= tl,
            i <= ml,
            forall|j: int| 0 <= j < i ==> text@[j] == marker@[j],
        decreases ml - i,
    {
        if text.get_char(i) != marker.get_char(i) {
            proof {
                assert(text@.subrange(0, ml as int)[i as int] != marker@[i as int]);
            }
            return text.to_string();
        }
        i = i + 1;
    }
    assert(text@.subrange(0, ml as int) =~= marker@);
    text.substring_char(ml, tl).to_string()
}

/// The text handed to a caller when the frame read after a command holds no reply marker.
pub open spec fn no_reply_text() -> Seq<char> {
    "Failed to receive IRC reply"@
}

/// `i` is the last position at which `sep` occurs in `text`.
pub open spec fn last_at(text: Seq<char>, sep: Seq<char>, i: int) -> bool {
    occurs_at(text, sep, i) && forall|j: int| i < j ==> !#[trigger] occurs_at(text, sep, j)
}

/// What follows the last occurrence of `sep` in `frame`, if `sep` occurs there at all.
pub open spec fn reply_body(frame: Seq<char>, sep: Seq<char>) -> Option<Seq<char>> {
    if exists|i: int| last_at(frame, sep, i) {
        let i = choose|i: int| last_at(frame, sep, i);
        Some(frame.subrange(i + sep.len(), frame.len() as int))
    } else {
        None
    }
}

/// The reply that a frame carries: the text after the sender marker, or the fixed failure text.
pub open spec fn correlated(frame: Seq<char>, sep: Seq<char>) -> Seq<char> {
    match reply_body(frame, sep) {
        Some(body) => body,
        None => no_reply_text(),
    }
}

proof fn lemma_last_at_unique(text: Seq<char>, sep: Seq<char>, i: int, k: int)
    requires
        last_at(text, sep, i),
        last_at(text, sep, k),
    ensures
        i == k,
{
    if i < k {
        assert(!occurs_at(text, sep, k));
    } else if k < i {
        assert(!occurs_at(text, sep, i));
    }
}

fn matches_at(text: &str, sep: &str, i: usize, tl: usize, sl: usize) -> (r: bool)
    requires
        tl == text@.len(),
        sl == sep@.len(),
        i + sl <= tl,
    ensures
        r == occurs_at(text@, sep@, i as int),
{
    let mut k: usize = 0;
    while k < sl
        invariant
            tl == text@.len(),
            sl == sep@.len(),
            i + sl <= tl,
            k <= sl,
            forall|j: int| 0 <= j < k ==> text@[i + j] == sep@[j],
        decreases sl - k,
    {
        if text.get_char(i + k) != sep.get_char(k) {
            assert(text@.subrange(i as int, i + sl)[k as int] != sep@[k as int]);
            return false;
        }
        k = k + 1;
    }
    assert(text@.subrange(i as int, i + sl) =~= sep@);
    true
}

/// Extracts the reply from an inbound frame: the text after the last occurrence of the
/// sender marker `sep`, or a fixed failure text when the marker does not occur.
pub fn extract_reply(frame: &str, sep: &str) -> (r: String)
    ensures
        r@ == correlated(frame@, sep@),
{
    let tl = frame.unicode_len();
    let sl = sep.unicode_len();
    if sl > tl {
        assert(!exists|i: int| last_at(frame@, sep@, i));
        return String::from_str("Failed to receive IRC reply");
    }
    let mut i: usize = tl - sl;
    loop
        invariant
            tl == frame@.len(),
            sl == sep@.len(),
            sl <= tl,
            i <= tl - sl,
            forall|j: int| i < j ==> !#[trigger] occurs_at(frame@, sep@, j),
        decreases i,
    {
        if matches_at(frame, sep, i, tl, sl) {
            assert(last_at(frame@, sep@, i as int));
            proof {
                let k = choose|k: int| last_at(frame@, sep@, k);
                lemma_last_at_unique(frame@, sep@, i as int, k);
            }
            return frame.substring_char(i + sl, tl).to_string();
        }
        if i == 0 {
            assert(!exists|k: int| last_at(frame@, sep@, k));
            return String::from_str("Failed to receive IRC reply");
        }
        i = i - 1;
    }
}

/// A reply made of the marker followed by a body comes back as the body; a reply that
/// does not start with the marker comes back unchanged.
pub proof fn law_strip_marker(marker: Seq<char>, body: Seq<char>, other: Seq<char>)
    requires
        !occurs_at(other, marker, 0),
    ensures
        stripped(marker + body, marker) == body,
        stripped(other, marker) == other,
{
    let t = marker + body;
    assert(t.subrange(0, marker.len() as int) =~= marker);
    assert(t.subrange(marker.len() as int, t.len() as int) =~= body);
}

} // verus!
