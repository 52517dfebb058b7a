//! The text form of a day-of-week mask in the settings file: how it is written
//! ("None", "All", "Weekdays", or day names joined by ", ") and how it is read
//! back (pieces split at ',' or '|', each trimmed of white space).
use vstd::prelude::*;
use crate::weekday::{Weekday, calendar_index, day_at, day_bit, day_name};

verus! {

/// Unicode `White_Space` characters: what `str::trim` removes.
pub open spec fn is_white_space(c: char) -> bool {
    let u = c as u32;
    ||| 0x09 <= u <= 0x0D
    ||| u == 0x20
    ||| u == 0x85
    ||| u == 0xA0
    ||| u == 0x1680
    ||| 0x2000 <= u <= 0x200A
    ||| u == 0x2028
    ||| u == 0x2029
    ||| u == 0x202F
    ||| u == 0x205F
    ||| u == 0x3000
}

/// The characters at which the day list is split.
pub open spec fn is_separator(c: char) -> bool {
    c == ',' || c == '|'
}

/// The pieces of `s` between separators, in order; `n` separators give `n + 1` pieces.
pub open spec fn split_pieces(s: Seq<char>) -> Seq<Seq<char>>
    decreases s.len(),
{
    if s.len() == 0 {
        seq![Seq::<char>::empty()]
    } else {
        let rest = split_pieces(s.drop_last());
        if is_separator(s.last()) {
            rest.push(Seq::<char>::empty())
        } else {
            rest.update(rest.len() - 1, rest.last().push(s.last()))
        }
    }
}

/// `t` without its leading white space.
pub open spec fn trim_start(t: Seq<char>) -> Seq<char>
    decreases t.len(),
{
    if t.len() > 0 && is_white_space(t[0]) {
        trim_start(t.drop_first())
    } else {
        t
    }
}

/// `t` without its trailing white space.
pub open spec fn trim_end(t: Seq<char>) -> Seq<char>
    decreases t.len(),
{
    if t.len() > 0 && is_white_space(t.last()) {
        trim_end(t.drop_last())
    } else {
        t
    }
}

/// `t` without leading and trailing white space.
pub open spec fn trim(t: Seq<char>) -> Seq<char> {
    trim_end(trim_start(t))
}

pub open spec fn word_none() -> Seq<char> {
    seq!['N', 'o', 'n', 'e']
}

pub open spec fn word_all() -> Seq<char> {
    seq!['A', 'l', 'l']
}

pub open spec fn word_weekdays() -> Seq<char> {
    seq!['W', 'e', 'e', 'k', 'd', 'a', 'y', 's']
}

pub open spec fn all_bits() -> u8 {
    127
}

pub open spec fn weekday_bits() -> u8 {
    62
}

/// The days that one trimmed piece adds to the mask ("All" is handled apart).
pub open spec fn token_bits(t: Seq<char>) -> u8 {
    if t == word_weekdays() {
        weekday_bits()
    } else if t == day_name(Weekday::Sun) {
        1
    } else if t == day_name(Weekday::Mon) {
        2
    } else if t == day_name(Weekday::Tue) {
        4
    } else if t == day_name(Weekday::Wed) {
        8
    } else if t == day_name(Weekday::Thu) {
        16
    } else if t == day_name(Weekday::Fri) {
        32
    } else if t == day_name(Weekday::Sat) {
        64
    } else {
        0
    }
}

/// The union of the days that the pieces name.
pub open spec fn pieces_bits(ps: Seq<Seq<char>>) -> u8
    decreases ps.len(),
{
    if ps.len() == 0 {
        0
    } else {
        pieces_bits(ps.drop_last()) | token_bits(trim(ps.last()))
    }
}

/// Some piece, trimmed, is "All".
pub open spec fn pieces_have_all(ps: Seq<Seq<char>>) -> bool {
    exists|i: int| 0 <= i < ps.len() && trim(#[trigger] ps[i]) == word_all()
}

/// The mask that the text `s` denotes: every day if a piece is "All", else the
/// union of the days that the pieces name; other pieces add nothing.
pub open spec fn parse_days(s: Seq<char>) -> u8 {
    let ps = split_pieces(s);
    if pieces_have_all(ps) {
        all_bits()
    } else {
        pieces_bits(ps)
    }
}

/// A trimmed piece that names nothing the day list knows: not empty, not
/// "None", "All" or "Weekdays", and no day name.
pub open spec fn is_unknown_token(t: Seq<char>) -> bool {
    &&& t.len() > 0
    &&& t != word_none()
    &&& t != word_all()
    &&& token_bits(t) == 0
}

/// The unknown pieces, trimmed, in order, up to the first "All" piece (reading
/// stops there).
pub open spec fn skipped_tokens(ps: Seq<Seq<char>>) -> Seq<Seq<char>>
    decreases ps.len(),
{
    if ps.len() == 0 {
        Seq::<Seq<char>>::empty()
    } else {
        let prev = skipped_tokens(ps.drop_last());
        if pieces_have_all(ps.drop_last()) || !is_unknown_token(trim(ps.last())) {
            prev
        } else {
            prev.push(trim(ps.last()))
        }
    }
}

/// Pieces after an "All" piece add no skipped token.
pub proof fn lemma_skipped_after_all(ps: Seq<Seq<char>>, k: int)
    requires
        0 <= k <= ps.len(),
        pieces_have_all(ps.take(k)),
    ensures
        skipped_tokens(ps) == skipped_tokens(ps.take(k)),
    decreases ps.len() - k,
{
    if k < ps.len() {
        let d = ps.drop_last();
        assert(d.take(k) =~= ps.take(k));
        lemma_skipped_after_all(d, k);
        let i = choose|i: int| 0 <= i < ps.take(k).len() && trim(#[trigger] ps.take(k)[i]) == word_all();
        assert(d[i] == ps.take(k)[i]);
        assert(pieces_have_all(d));
    } else {
        assert(ps.take(k) =~= ps);
    }
}

/// The mask has the day.
pub open spec fn has_day(bits: u8, w: Weekday) -> bool {
    bits & day_bit(w) != 0
}

/// The names of the days of the mask among the first `k` days (Sunday first),
/// joined by ", ".
pub open spec fn joined_names(bits: u8, k: nat) -> Seq<char>
    decreases k,
{
    if k == 0 {
        Seq::<char>::empty()
    } else {
        let prev = joined_names(bits, (k - 1) as nat);
        let w = day_at(k - 1);
        if has_day(bits, w) {
            if prev.len() == 0 {
                day_name(w)
            } else {
                prev + seq![',', ' '] + day_name(w)
            }
        } else {
            prev
        }
    }
}

/// The text that stands for a mask in the settings file.
pub open spec fn days_text(bits: u8) -> Seq<char> {
    if bits == 0 {
        word_none()
    } else if bits == all_bits() {
        word_all()
    } else if bits == weekday_bits() {
        word_weekdays()
    } else {
        joined_names(bits, 7)
    }
}

/// The days of the mask among the first `k` days (Sunday first).
pub open spec fn low_bits(bits: u8, k: nat) -> u8
    decreases k,
{
    if k == 0 {
        0
    } else {
        low_bits(bits, (k - 1) as nat) | (bits & day_bit(day_at(k - 1)))
    }
}

// ---------------------------------------------------------------------------
// Lemmas about splitting.
// ---------------------------------------------------------------------------

pub proof fn lemma_split_nonempty(s: Seq<char>)
    ensures
        split_pieces(s).len() >= 1,
    decreases s.len(),
{
    if s.len() > 0 {
        lemma_split_nonempty(s.drop_last());
    }
}

/// Appending characters that are not separators extends the last piece.
pub proof fn lemma_split_append_plain(x: Seq<char>, y: Seq<char>)
    requires
        forall|i: int| 0 <= i < y.len() ==> !is_separator(#[trigger] y[i]),
    ensures
        split_pieces(x + y) == split_pieces(x).update(
            split_pieces(x).len() - 1,
            split_pieces(x).last() + y,
        ),
    decreases y.len(),
{
    lemma_split_nonempty(x);
    if y.len() == 0 {
        assert(x + y =~= x);
        assert(split_pieces(x).last() + y =~= split_pieces(x).last());
        assert(split_pieces(x).update(split_pieces(x).len() - 1, split_pieces(x).last())
            =~= split_pieces(x));
    } else {
        let y0 = y.drop_last();
        lemma_split_append_plain(x, y0);
        assert((x + y).drop_last() =~= x + y0);
        assert((x + y).last() == y.last());
        lemma_split_nonempty(x + y0);
        let p = split_pieces(x);
        let q = split_pieces(x + y0);
        assert(!is_separator(y[y.len() - 1]));
        assert(q.len() == p.len());
        assert(q.last() == p.last() + y0);
        assert(split_pieces(x + y) == q.update(q.len() - 1, q.last().push(y.last())));
        assert(q.last().push(y.last()) =~= p.last() + y);
        assert(q.update(q.len() - 1, p.last() + y) =~= p.update(p.len() - 1, p.last() + y));
    }
}

/// Appending a separator starts a new, empty piece.
pub proof fn lemma_split_append_separator(x: Seq<char>, c: char)
    requires
        is_separator(c),
    ensures
        split_pieces(x.push(c)) == split_pieces(x).push(Seq::<char>::empty()),
{
    assert(x.push(c).drop_last() =~= x);
}

/// Text without separators is one piece.
pub proof fn lemma_split_plain(y: Seq<char>)
    requires
        forall|i: int| 0 <= i < y.len() ==> !is_separator(#[trigger] y[i]),
    ensures
        split_pieces(y) == seq![y],
{
    lemma_split_append_plain(Seq::<char>::empty(), y);
    assert(Seq::<char>::empty() + y =~= y);
    assert(split_pieces(Seq::<char>::empty()) == seq![Seq::<char>::empty()]);
    assert(Seq::<char>::empty() + y =~= y);
    assert(seq![Seq::<char>::empty()].update(0, Seq::<char>::empty() + y) =~= seq![y]);
}

/// Growing the text keeps every finished piece (all but the last) in place.
pub proof fn lemma_split_prefix(s: Seq<char>, i: int, j: int)
    requires
        0 <= i <= j <= s.len(),
    ensures
        split_pieces(s.take(j)).len() >= split_pieces(s.take(i)).len(),
        forall|k: int|
            0 <= k < split_pieces(s.take(i)).len() - 1 ==> #[trigger] split_pieces(s.take(j))[k]
                == split_pieces(s.take(i))[k],
    decreases j - i,
{
    if i < j {
        lemma_split_prefix(s, i, j - 1);
        assert(s.take(j).drop_last() =~= s.take(j - 1));
        lemma_split_nonempty(s.take(j - 1));
    }
}

// ---------------------------------------------------------------------------
// Lemmas about the written form, used for the round trip.
// ---------------------------------------------------------------------------

proof fn lemma_day_name_facts(w: Weekday)
    ensures
        day_name(w).len() == 3,
        forall|i: int| 0 <= i < 3 ==> !is_separator(#[trigger] day_name(w)[i]),
        forall|i: int| 0 <= i < 3 ==> !is_white_space(#[trigger] day_name(w)[i]),
        trim(day_name(w)) == day_name(w),
        trim(seq![' '] + day_name(w)) == day_name(w),
        token_bits(day_name(w)) == day_bit(w),
        day_name(w) != word_all(),
{
    let n = day_name(w);
    assert(n.len() == 3);
    assert(!is_white_space(n[0]));
    assert(!is_white_space(n[1]));
    assert(!is_white_space(n[2]));
    assert(!is_separator(n[0]));
    assert(!is_separator(n[1]));
    assert(!is_separator(n[2]));
    assert(forall|i: int| 0 <= i < 3 ==> !is_separator(#[trigger] n[i]));
    assert(forall|i: int| 0 <= i < 3 ==> !is_white_space(#[trigger] n[i]));
    // trim of the bare name
    assert(trim_start(n) == n);
    assert(trim_end(n) == n);
    // trim of the name after one space
    let sp = seq![' '] + n;
    assert(sp[0] == ' ');
    assert(sp.drop_first() =~= n);
    assert(trim_start(sp) == n);
    // the name is no other keyword
    assert(n[0] != word_all()[0]);
    assert(n != word_weekdays()) by {
        assert(n.len() != word_weekdays().len());
    }
    let names = seq![
        day_name(Weekday::Sun),
        day_name(Weekday::Mon),
        day_name(Weekday::Tue),
        day_name(Weekday::Wed),
        day_name(Weekday::Thu),
        day_name(Weekday::Fri),
        day_name(Weekday::Sat),
    ];
    // distinct names differ in their first or second character
    match w {
        Weekday::Sun => {},
        Weekday::Mon => {
            assert(n[0] != day_name(Weekday::Sun)[0]);
        },
        Weekday::Tue => {
            assert(n[0] != day_name(Weekday::Sun)[0]);
            assert(n[0] != day_name(Weekday::Mon)[0]);
        },
        Weekday::Wed => {
            assert(n[0] != day_name(Weekday::Sun)[0]);
            assert(n[0] != day_name(Weekday::Mon)[0]);
            assert(n[0] != day_name(Weekday::Tue)[0]);
        },
        Weekday::Thu => {
            assert(n[0] != day_name(Weekday::Sun)[0]);
            assert(n[0] != day_name(Weekday::Mon)[0]);
            assert(n[1] != day_name(Weekday::Tue)[1]);
            assert(n[0] != day_name(Weekday::Wed)[0]);
        },
        Weekday::Fri => {
            assert(n[0] != day_name(Weekday::Sun)[0]);
            assert(n[0] != day_name(Weekday::Mon)[0]);
            assert(n[0] != day_name(Weekday::Tue)[0]);
            assert(n[0] != day_name(Weekday::Wed)[0]);
            assert(n[0] != day_name(Weekday::Thu)[0]);
        },
        Weekday::Sat => {
            assert(n[1] != day_name(Weekday::Sun)[1]);
            assert(n[0] != day_name(Weekday::Mon)[0]);
            assert(n[0] != day_name(Weekday::Tue)[0]);
            assert(n[0] != day_name(Weekday::Wed)[0]);
            assert(n[0] != day_name(Weekday::Thu)[0]);
            assert(n[0] != day_name(Weekday::Fri)[0]);
        },
    }
}

proof fn lemma_bit_facts(bits: u8, b: u8, low: u8)
    requires
        b != 0,
    ensures
        low | b != 0,
        bits & b == 0 ==> low | (bits & b) == low,
        bits & b != 0 && (b == 1 || b == 2 || b == 4 || b == 8 || b == 16 || b == 32 || b == 64)
            ==> bits & b == b,
{
    assert(b != 0 ==> low | b != 0) by (bit_vector);
    assert(bits & b == 0 ==> low | (bits & b) == low) by (bit_vector);
    assert(bits & b != 0 && (b == 1 || b == 2 || b == 4 || b == 8 || b == 16 || b == 32 || b
        == 64) ==> bits & b == b) by (bit_vector);
}

/// What the pieces of the first `k` joined names give back.
proof fn lemma_joined_pieces(bits: u8, k: nat)
    requires
        k <= 7,
    ensures
        (joined_names(bits, k).len() == 0) == (low_bits(bits, k) == 0),
        joined_names(bits, k).len() > 0 ==> {
            &&& pieces_bits(split_pieces(joined_names(bits, k))) == low_bits(bits, k)
            &&& !pieces_have_all(split_pieces(joined_names(bits, k)))
        },
    decreases k,
{
    if k > 0 {
        let km = (k - 1) as nat;
        lemma_joined_pieces(bits, km);
        let prev = joined_names(bits, km);
        let w = day_at(k - 1);
        let n = day_name(w);
        let b = day_bit(w);
        lemma_day_name_facts(w);
        lemma_bit_facts(bits, b, low_bits(bits, km));
        assert(low_bits(bits, k) == low_bits(bits, km) | (bits & b));
        if has_day(bits, w) {
            assert(bits & b == b);
            if prev.len() == 0 {
                assert(joined_names(bits, k) == n);
                lemma_split_plain(n);
                let ps = split_pieces(n);
                assert(ps == seq![n]);
                assert(ps.drop_last() =~= Seq::<Seq<char>>::empty());
                assert(ps.last() == n);
                assert(pieces_bits(ps) == pieces_bits(ps.drop_last()) | token_bits(trim(n)));
                assert(pieces_bits(Seq::<Seq<char>>::empty()) == 0);
                assert(0u8 | b == b) by (bit_vector);
                assert(low_bits(bits, km) == 0);
                assert(0u8 | b == b) by (bit_vector);
                assert forall|i: int| 0 <= i < ps.len() implies trim(#[trigger] ps[i])
                    != word_all() by {
                    assert(ps[i] == n);
                }
            } else {
                let t = joined_names(bits, k);
                let tail = seq![' '] + n;
                assert(t =~= prev.push(',') + tail);
                assert(forall|i: int| 0 <= i < tail.len() ==> !is_separator(#[trigger] tail[i]))
                    by {
                    assert forall|i: int| 0 <= i < tail.len() implies !is_separator(
                        #[trigger] tail[i],
                    ) by {
                        if i > 0 {
                            assert(tail[i] == n[i - 1]);
                        }
                    }
                }
                lemma_split_append_separator(prev, ',');
                lemma_split_append_plain(prev.push(','), tail);
                let p0 = split_pieces(prev);
                let p1 = split_pieces(prev.push(','));
                assert(p1 == p0.push(Seq::<char>::empty()));
                assert(Seq::<char>::empty() + tail =~= tail);
                let ps = split_pieces(t);
                assert(ps =~= p0.push(tail));
                assert(ps.drop_last() =~= p0);
                assert(ps.last() == tail);
                assert(pieces_bits(ps) == pieces_bits(p0) | b);
                assert forall|i: int| 0 <= i < ps.len() implies trim(#[trigger] ps[i])
                    != word_all() by {
                    if i < p0.len() {
                        assert(ps[i] == p0[i]);
                    } else {
                        assert(ps[i] == tail);
                    }
                }
            }
        } else {
            assert(bits & b == 0);
            assert(joined_names(bits, k) == prev);
        }
    }
}

/// The low seven bits of a mask are the union of its days.
proof fn lemma_low_bits_full(bits: u8)
    requires
        bits < 128,
    ensures
        low_bits(bits, 7) == bits,
{
    reveal_with_fuel(low_bits, 8);
    assert(day_bit(day_at(0)) == 1);
    assert(day_bit(day_at(1)) == 2);
    assert(day_bit(day_at(2)) == 4);
    assert(day_bit(day_at(3)) == 8);
    assert(day_bit(day_at(4)) == 16);
    assert(day_bit(day_at(5)) == 32);
    assert(day_bit(day_at(6)) == 64);
    assert(bits < 128 ==> ((((((((0u8 | (bits & 1)) | (bits & 2)) | (bits & 4)) | (bits & 8))
        | (bits & 16)) | (bits & 32)) | (bits & 64)) == bits)) by (bit_vector);
}

/// The text of a keyword is one piece: the keyword itself.
proof fn lemma_keyword_pieces(word: Seq<char>)
    requires
        forall|i: int| 0 <= i < word.len() ==> !is_separator(#[trigger] word[i]),
        word.len() > 0,
        !is_white_space(word[0]),
        !is_white_space(word.last()),
    ensures
        split_pieces(word) == seq![word],
        trim(word) == word,
{
    lemma_split_plain(word);
    assert(trim_start(word) == word);
    assert(trim_end(word) == word);
}

/// Reading back the text of a mask gives the mask (for masks of days only).
pub proof fn lemma_days_text_round_trip(bits: u8)
    requires
        bits < 128,
    ensures
        parse_days(days_text(bits)) == bits,
{
    if bits == 0 {
        let w = word_none();
        assert(!is_separator(w[0]) && !is_separator(w[1]) && !is_separator(w[2]) && !is_separator(
            w[3],
        ));
        lemma_keyword_pieces(w);
        let ps = split_pieces(w);
        assert(ps.drop_last() =~= Seq::<Seq<char>>::empty());
        assert(w != word_all()) by {
            assert(w.len() != word_all().len());
        }
        assert(w != word_weekdays()) by {
            assert(w.len() != word_weekdays().len());
        }
        assert(w[0] != day_name(Weekday::Sun)[0]);
        assert(w != day_name(Weekday::Sun));
        assert(w != day_name(Weekday::Mon)) by {
            assert(w.len() != 3);
        }
        assert(token_bits(w) == 0) by {
            assert(w.len() == 4);
        }
        assert(ps.last() == w);
        assert(pieces_bits(ps.drop_last()) == 0);
        assert(pieces_bits(ps) == pieces_bits(ps.drop_last()) | token_bits(trim(ps.last())));
        assert(0u8 | 0u8 == 0) by (bit_vector);
        assert(days_text(bits) == w);
        assert(!pieces_have_all(ps)) by {
            assert forall|i: int| 0 <= i < ps.len() implies trim(#[trigger] ps[i])
                != word_all() by {
                assert(ps[i] == w);
            }
        }
        assert(parse_days(w) == pieces_bits(ps));
    } else if bits == all_bits() {
        let w = word_all();
        assert(!is_separator(w[0]) && !is_separator(w[1]) && !is_separator(w[2]));
        lemma_keyword_pieces(w);
        let ps = split_pieces(w);
        assert(ps[0] == w);
        assert(pieces_have_all(ps));
        assert(days_text(bits) == w);
        assert(parse_days(w) == all_bits());
    } else if bits == weekday_bits() {
        let w = word_weekdays();
        assert(forall|i: int| 0 <= i < w.len() ==> !is_separator(#[trigger] w[i])) by {
            assert forall|i: int| 0 <= i < w.len() implies !is_separator(#[trigger] w[i]) by {
                assert(0 <= i < 8);
            }
        }
        lemma_keyword_pieces(w);
        let ps = split_pieces(w);
        assert(ps.drop_last() =~= Seq::<Seq<char>>::empty());
        assert(token_bits(w) == weekday_bits());
        assert(0u8 | 62u8 == 62) by (bit_vector);
        assert(days_text(bits) == w);
        assert(ps.last() == w);
        assert(w != word_all()) by {
            assert(w.len() != word_all().len());
        }
        assert(!pieces_have_all(ps)) by {
            assert forall|i: int| 0 <= i < ps.len() implies trim(#[trigger] ps[i])
                != word_all() by {
                assert(ps[i] == w);
            }
        }
        assert(pieces_bits(ps) == pieces_bits(ps.drop_last()) | token_bits(trim(ps.last())));
        assert(pieces_bits(ps.drop_last()) == 0);
        assert(parse_days(w) == pieces_bits(ps));
    } else {
        lemma_joined_pieces(bits, 7);
        lemma_low_bits_full(bits);
        assert(days_text(bits) == joined_names(bits, 7));
        assert(joined_names(bits, 7).len() > 0);
        assert(parse_days(days_text(bits)) == bits);
    }
}

// ---------------------------------------------------------------------------
// Reading a day list is a union over its pieces.
// ---------------------------------------------------------------------------

/// The pieces of two texts joined by a comma are the pieces of each.
pub proof fn lemma_split_concat(x: Seq<char>, y: Seq<char>)
    ensures
        split_pieces(x + seq![','] + y) == split_pieces(x) + split_pieces(y),
    decreases y.len(),
{
    lemma_split_nonempty(x);
    lemma_split_nonempty(y);
    if y.len() == 0 {
        assert(x + seq![','] + y =~= x.push(','));
        lemma_split_append_separator(x, ',');
        assert(y =~= Seq::<char>::empty());
        assert(split_pieces(y) == seq![Seq::<char>::empty()]);
        assert(split_pieces(x).push(Seq::<char>::empty()) =~= split_pieces(x) + split_pieces(y));
    } else {
        let y0 = y.drop_last();
        let c = y.last();
        lemma_split_concat(x, y0);
        lemma_split_nonempty(y0);
        let z = x + seq![','] + y;
        assert(z.drop_last() =~= x + seq![','] + y0);
        assert(z.last() == c);
        let p = split_pieces(x);
        let q0 = split_pieces(y0);
        let pq = p + q0;
        assert(split_pieces(z.drop_last()) == pq);
        if is_separator(c) {
            assert(split_pieces(z) == pq.push(Seq::<char>::empty()));
            assert(split_pieces(y) == q0.push(Seq::<char>::empty()));
            assert(pq.push(Seq::<char>::empty()) =~= p + q0.push(Seq::<char>::empty()));
        } else {
            assert(split_pieces(z) == pq.update(pq.len() - 1, pq.last().push(c)));
            assert(split_pieces(y) == q0.update(q0.len() - 1, q0.last().push(c)));
            assert(pq.last() == q0.last());
            assert(pq.update(pq.len() - 1, pq.last().push(c)) =~= p + q0.update(
                q0.len() - 1,
                q0.last().push(c),
            ));
        }
    }
}

/// The days of two lists of pieces together are the union of their days.
pub proof fn lemma_pieces_bits_concat(p: Seq<Seq<char>>, q: Seq<Seq<char>>)
    ensures
        pieces_bits(p + q) == pieces_bits(p) | pieces_bits(q),
    decreases q.len(),
{
    if q.len() == 0 {
        assert(p + q =~= p);
        let a = pieces_bits(p);
        assert(a | 0u8 == a) by (bit_vector);
    } else {
        lemma_pieces_bits_concat(p, q.drop_last());
        assert((p + q).drop_last() =~= p + q.drop_last());
        assert((p + q).last() == q.last());
        let a = pieces_bits(p);
        let b = pieces_bits(q.drop_last());
        let t = token_bits(trim(q.last()));
        assert((a | b) | t == a | (b | t)) by (bit_vector);
    }
}

/// Two lists of pieces together hold "All" when one of them does.
pub proof fn lemma_have_all_concat(p: Seq<Seq<char>>, q: Seq<Seq<char>>)
    ensures
        pieces_have_all(p + q) == (pieces_have_all(p) || pieces_have_all(q)),
{
    if pieces_have_all(p + q) {
        let i = choose|i: int| 0 <= i < (p + q).len() && trim(#[trigger] (p + q)[i]) == word_all();
        if i < p.len() {
            assert(p[i] == (p + q)[i]);
        } else {
            assert(q[i - p.len()] == (p + q)[i]);
        }
    }
    if pieces_have_all(p) {
        let i = choose|i: int| 0 <= i < p.len() && trim(#[trigger] p[i]) == word_all();
        assert((p + q)[i] == p[i]);
    }
    if pieces_have_all(q) {
        let i = choose|i: int| 0 <= i < q.len() && trim(#[trigger] q[i]) == word_all();
        assert((p + q)[p.len() + i] == q[i]);
    }
}

/// Reading a day list is a union: the days of two lists joined by a comma are
/// the days of the first together with the days of the second, and every day
/// if either holds "All".
pub proof fn law_reading_is_union(a: Seq<char>, b: Seq<char>)
    ensures
        !pieces_have_all(split_pieces(a)) && !pieces_have_all(split_pieces(b)) ==> parse_days(
            a + seq![','] + b,
        ) == parse_days(a) | parse_days(b),
        pieces_have_all(split_pieces(a)) || pieces_have_all(split_pieces(b)) ==> parse_days(
            a + seq![','] + b,
        ) == 127,
{
    lemma_split_concat(a, b);
    lemma_pieces_bits_concat(split_pieces(a), split_pieces(b));
    lemma_have_all_concat(split_pieces(a), split_pieces(b));
}

/// The days that one piece names never exceed the seven days of the week.
proof fn lemma_token_bits_small(t: Seq<char>)
    ensures
        token_bits(t) < 128,
{
}

/// Every piece of the list contributes its days: the mask read from a text
/// holds the days of each of its pieces.
proof fn lemma_pieces_bits_include(ps: Seq<Seq<char>>, i: int)
    requires
        0 <= i < ps.len(),
    ensures
        pieces_bits(ps) & token_bits(trim(ps[i])) == token_bits(trim(ps[i])),
    decreases ps.len(),
{
    let a = pieces_bits(ps.drop_last());
    let t = token_bits(trim(ps.last()));
    if i == ps.len() - 1 {
        assert((a | t) & t == t) by (bit_vector);
    } else {
        lemma_pieces_bits_include(ps.drop_last(), i);
        assert(ps.drop_last()[i] == ps[i]);
        let u = token_bits(trim(ps[i]));
        assert(a & u == u ==> (a | t) & u == u) by (bit_vector);
    }
}

/// Each piece of a day list puts its days in the mask, whatever the other
/// pieces say: a day name puts in that day, "Weekdays" Monday to Friday.
pub proof fn law_every_piece_counts(s: Seq<char>, i: int)
    requires
        0 <= i < split_pieces(s).len(),
    ensures
        parse_days(s) & token_bits(trim(split_pieces(s)[i])) == token_bits(
            trim(split_pieces(s)[i]),
        ),
        forall|w: Weekday| trim(split_pieces(s)[i]) == day_name(w) ==> #[trigger] has_day(
            parse_days(s),
            w,
        ),
        trim(split_pieces(s)[i]) == word_weekdays() ==> parse_days(s) & weekday_bits()
            == weekday_bits(),
{
    let ps = split_pieces(s);
    let t = token_bits(trim(ps[i]));
    lemma_token_bits_small(trim(ps[i]));
    if pieces_have_all(ps) {
        assert(t < 128 ==> 127u8 & t == t) by (bit_vector);
    } else {
        lemma_pieces_bits_include(ps, i);
    }
    let p = parse_days(s);
    assert forall|w: Weekday| trim(ps[i]) == day_name(w) implies #[trigger] has_day(p, w) by {
        lemma_day_name_facts(w);
        let b = day_bit(w);
        assert(p & b == b);
        assert(b != 0 && p & b == b ==> p & b != 0) by (bit_vector);
    }
    if trim(ps[i]) == word_weekdays() {
        assert(t == weekday_bits());
    }
}

// ---------------------------------------------------------------------------
// The written form lists the days in calendar order.
// ---------------------------------------------------------------------------

/// A day's bit is one shifted by the day's calendar position.
proof fn lemma_day_bit_shift(w: Weekday)
    ensures
        0 <= calendar_index(w) < 7,
        day_bit(w) == 1u8 << (calendar_index(w) as u8),
        day_at(calendar_index(w)) == w,
{
    match w {
        Weekday::Sun => {
            assert(1u8 << 0u8 == 1u8) by (bit_vector);
        },
        Weekday::Mon => {
            assert(1u8 << 1u8 == 2u8) by (bit_vector);
        },
        Weekday::Tue => {
            assert(1u8 << 2u8 == 4u8) by (bit_vector);
        },
        Weekday::Wed => {
            assert(1u8 << 3u8 == 8u8) by (bit_vector);
        },
        Weekday::Thu => {
            assert(1u8 << 4u8 == 16u8) by (bit_vector);
        },
        Weekday::Fri => {
            assert(1u8 << 5u8 == 32u8) by (bit_vector);
        },
        Weekday::Sat => {
            assert(1u8 << 6u8 == 64u8) by (bit_vector);
        },
    }
}

proof fn lemma_day_at_index(j: int)
    requires
        0 <= j < 7,
    ensures
        calendar_index(day_at(j)) == j,
{
}

/// Masks that agree on the first `k` days write the same names for them.
proof fn lemma_joined_agree(x: u8, y: u8, k: nat)
    requires
        k <= 7,
        forall|j: int| 0 <= j < k ==> has_day(x, #[trigger] day_at(j)) == has_day(y, day_at(j)),
    ensures
        joined_names(x, k) == joined_names(y, k),
    decreases k,
{
    if k > 0 {
        lemma_joined_agree(x, y, (k - 1) as nat);
        assert(has_day(x, day_at(k - 1)) == has_day(y, day_at(k - 1)));
    }
}

/// Days a mask does not have add nothing to the names written.
proof fn lemma_joined_stable(x: u8, k: nat, m: nat)
    requires
        k <= m <= 7,
        forall|j: int| k <= j < m ==> !has_day(x, #[trigger] day_at(j)),
    ensures
        joined_names(x, m) == joined_names(x, k),
    decreases m - k,
{
    if k < m {
        lemma_joined_stable(x, k, (m - 1) as nat);
        assert(!has_day(x, day_at(m - 1)));
    }
}

/// No name is written for the first `k` days exactly when the mask has none of them.
proof fn lemma_joined_empty(x: u8, k: nat)
    requires
        k <= 7,
    ensures
        (joined_names(x, k).len() == 0) == (forall|j: int| 0 <= j < k ==> !has_day(x, #[trigger] day_at(j))),
    decreases k,
{
    if k > 0 {
        lemma_joined_empty(x, (k - 1) as nat);
        let w = day_at(k - 1);
        assert(day_name(w).len() == 3);
        if has_day(x, w) {
            let prev = joined_names(x, (k - 1) as nat);
            if prev.len() != 0 {
                assert((prev + seq![',', ' '] + day_name(w)).len() > 0);
            }
        }
        if !(forall|j: int| 0 <= j < k ==> !has_day(x, #[trigger] day_at(j))) {
            let j = choose|j: int| 0 <= j < k && has_day(x, #[trigger] day_at(j));
            if j < k - 1 {
                assert(!(forall|i: int| 0 <= i < k - 1 ==> !has_day(x, #[trigger] day_at(i))));
            }
        }
    }
}

/// A mask of one day is written as that day's name.
pub proof fn law_days_text_single_day(w: Weekday)
    ensures
        days_text(day_bit(w)) == day_name(w),
{
    lemma_day_bit_shift(w);
    let i = calendar_index(w);
    let bw = day_bit(w);
    let iu = i as u8;
    assert forall|j: int| 0 <= j < 7 implies has_day(bw, #[trigger] day_at(j)) == (j == i) by {
        lemma_day_bit_shift(day_at(j));
        lemma_day_at_index(j);
        let ju = j as u8;
        assert(iu < 7 && ju < 7 ==> (((1u8 << iu) & (1u8 << ju) != 0) == (iu == ju))) by (bit_vector);
    }
    lemma_joined_stable(bw, (i + 1) as nat, 7);
    lemma_joined_empty(bw, i as nat);
    assert(joined_names(bw, (i + 1) as nat) == day_name(w));
    assert(bw != 0 && bw != all_bits() && bw != weekday_bits());
}

/// Adding a day later in the week than every day of a mask appends ", " and
/// that day's name to the mask's text (when neither mask is written as an
/// alias): the written form lists the days in calendar order, Sunday first.
pub proof fn law_days_text_appends_later_day(b: u8, w: Weekday)
    requires
        0 < b < day_bit(w),
        b != weekday_bits(),
        b | day_bit(w) != weekday_bits(),
        b | day_bit(w) != all_bits(),
    ensures
        days_text(b | day_bit(w)) == days_text(b) + seq![',', ' '] + day_name(w),
{
    lemma_day_bit_shift(w);
    let i = calendar_index(w);
    let iu = i as u8;
    let bw = day_bit(w);
    let c = b | bw;
    assert forall|j: int| 0 <= j < 7 implies {
        &&& (j < i ==> has_day(c, #[trigger] day_at(j)) == has_day(b, day_at(j)))
        &&& (j >= i ==> !has_day(b, day_at(j)))
        &&& (j > i ==> !has_day(c, day_at(j)))
        &&& (j == i ==> has_day(c, day_at(j)))
    } by {
        lemma_day_bit_shift(day_at(j));
        lemma_day_at_index(j);
        let ju = j as u8;
        assert(iu < 7 && ju < 7 && ju < iu ==> (((b | (1u8 << iu)) & (1u8 << ju) != 0) == (b & (
        1u8 << ju) != 0))) by (bit_vector);
        assert(iu < 7 && ju < 7 && b < (1u8 << iu) && ju >= iu ==> b & (1u8 << ju) == 0)
            by (bit_vector);
        assert(iu < 7 && ju < 7 && b < (1u8 << iu) && ju > iu ==> (b | (1u8 << iu)) & (1u8 << ju)
            == 0) by (bit_vector);
        assert(iu < 7 ==> (b | (1u8 << iu)) & (1u8 << iu) != 0) by (bit_vector);
    }
    lemma_joined_agree(c, b, i as nat);
    lemma_joined_stable(c, (i + 1) as nat, 7);
    lemma_joined_stable(b, i as nat, 7);
    lemma_joined_empty(b, i as nat);
    // b has some day before w
    assert(joined_names(b, i as nat).len() != 0) by {
        if joined_names(b, i as nat).len() == 0 {
            assert forall|j: int| 0 <= j < 7 implies !has_day(b, #[trigger] day_at(j)) by {
                if j < i {
                } else {
                }
            }
            let d0 = day_at(0);
            let d1 = day_at(1);
            let d2 = day_at(2);
            let d3 = day_at(3);
            let d4 = day_at(4);
            let d5 = day_at(5);
            let d6 = day_at(6);
            assert(!has_day(b, d0) && !has_day(b, d1) && !has_day(b, d2) && !has_day(b, d3)
                && !has_day(b, d4) && !has_day(b, d5) && !has_day(b, d6));
            assert(b < bw);
            assert(bw <= 64);
            assert(b < 128 && b & 1 == 0 && b & 2 == 0 && b & 4 == 0 && b & 8 == 0 && b & 16 == 0
                && b & 32 == 0 && b & 64 == 0 ==> b == 0) by (bit_vector);
        }
    }
    assert(c != 0) by {
        assert(b != 0 ==> b | bw != 0) by (bit_vector);
    }
    assert(joined_names(c, (i + 1) as nat) == joined_names(b, i as nat) + seq![',', ' '] + day_name(w));
}

// ---------------------------------------------------------------------------
// Executable helpers on text.
// ---------------------------------------------------------------------------

/// `c` is Unicode white space (what `char::is_whitespace` tells).
pub fn is_white_space_char(c: char) -> (r: bool)
    ensures
        r == is_white_space(c),
{
    let u = c as u32;
    (0x09 <= u && u <= 0x0D) || u == 0x20 || u == 0x85 || u == 0xA0 || u == 0x1680 || (0x2000 <= u
        && u <= 0x200A) || u == 0x2028 || u == 0x2029 || u == 0x202F || u == 0x205F || u == 0x3000
}

/// The characters of `s` from `lo` to `hi` are exactly `word`.
pub fn segment_equals(s: &str, lo: usize, hi: usize, word: &str) -> (r: bool)
    requires
        lo <= hi <= s@.len(),
    ensures
        r == (s@.subrange(lo as int, hi as int) == word@),
{
    let n = word.unicode_len();
    if hi - lo != n {
        proof {
            assert(s@.subrange(lo as int, hi as int).len() != word@.len());
        }
        return false;
    }
    let mut k: usize = 0;
    while k < n
        invariant
            n == word@.len(),
            hi - lo == n,
            lo <= hi <= s@.len(),
            k <= n,
            forall|j: int| 0 <= j < k ==> s@[lo + j] == word@[j],
        decreases n - k,
    {
        if s.get_char(lo + k) != word.get_char(k) {
            proof {
                assert(s@.subrange(lo as int, hi as int)[k as int] != word@[k as int]);
            }
            return false;
        }
        k += 1;
    }
    proof {
        assert(s@.subrange(lo as int, hi as int) =~= word@);
    }
    true
}

/// The bounds of the segment `lo..hi` of `s` with white space trimmed from both ends.
pub fn trimmed_bounds(s: &str, lo: usize, hi: usize) -> (r: (usize, usize))
    requires
        lo <= hi <= s@.len(),
    ensures
        lo <= r.0 <= r.1 <= hi,
        s@.subrange(r.0 as int, r.1 as int) == trim(s@.subrange(lo as int, hi as int)),
{
    let mut a = lo;
    while a < hi && is_white_space_char(s.get_char(a))
        invariant
            lo <= a <= hi <= s@.len(),
            trim_start(s@.subrange(lo as int, hi as int)) == trim_start(
                s@.subrange(a as int, hi as int),
            ),
        decreases hi - a,
    {
        proof {
            let t = s@.subrange(a as int, hi as int);
            assert(t[0] == s@[a as int]);
            assert(t.drop_first() =~= s@.subrange(a + 1, hi as int));
        }
        a += 1;
    }
    proof {
        let t = s@.subrange(a as int, hi as int);
        if a < hi {
            assert(t[0] == s@[a as int]);
        }
        assert(trim_start(t) == t);
    }
    let mut b = hi;
    while b > a && is_white_space_char(s.get_char(b - 1))
        invariant
            lo <= a <= b <= hi <= s@.len(),
            trim_end(s@.subrange(a as int, hi as int)) == trim_end(
                s@.subrange(a as int, b as int),
            ),
        decreases b - a,
    {
        proof {
            let t = s@.subrange(a as int, b as int);
            assert(t.last() == s@[b - 1]);
            assert(t.drop_last() =~= s@.subrange(a as int, b - 1));
        }
        b -= 1;
    }
    proof {
        let t = s@.subrange(a as int, b as int);
        if a < b {
            assert(t.last() == s@[b - 1]);
        }
        assert(trim_end(t) == t);
    }
    (a, b)
}

} // verus!
