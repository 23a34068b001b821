use vstd::prelude::*;
use vstd::utf8::encode_utf8;
use vstd::string::StringSliceAdditionalSpecFns;

verus! {

/// `String::push` appends one character to the end of a string, as its
/// documentation states; the contract says exactly that of the string's
/// characters.
pub assume_specification[ String::push ](s: &mut String, ch: char)
    ensures
        final(s)@ == old(s)@.push(ch),
;

/// The character a byte shows when read as 7-bit ASCII, if it is a printable
/// one: a graphic character or the space. Other bytes show nothing.
pub open spec fn visible_char(b: u8) -> Option<char> {
    let c = b & 0x7f;
    if (0x21 <= c && c <= 0x7e) || c == 0x20 {
        Some(c as char)
    } else {
        None
    }
}

/// The printable characters a byte string shows, in order.
pub open spec fn visible_text(data: Seq<u8>) -> Seq<char>
    decreases data.len(),
{
    if data.len() == 0 {
        seq![]
    } else {
        let rest = visible_text(data.drop_last());
        match visible_char(data.last()) {
            Some(c) => rest.push(c),
            None => rest,
        }
    }
}

/// Reading a text left to right: the words closed by a space so far, and the
/// word still being read.
pub open spec fn scan_words(text: Seq<char>) -> (Seq<Seq<char>>, Seq<char>)
    decreases text.len(),
{
    if text.len() == 0 {
        (seq![], seq![])
    } else {
        let (done, cur) = scan_words(text.drop_last());
        if text.last() == ' ' {
            if cur.len() > 0 {
                (done.push(cur), seq![])
            } else {
                (done, cur)
            }
        } else {
            (done, cur.push(text.last()))
        }
    }
}

/// The words of a text: its maximal runs of characters other than the space.
pub open spec fn split_words(text: Seq<char>) -> Seq<Seq<char>> {
    let (done, cur) = scan_words(text);
    if cur.len() > 0 {
        done.push(cur)
    } else {
        done
    }
}


/// Whether a character has Unicode's `White_Space` property.
pub open spec fn is_white_space(c: char) -> bool {
    let u = c as u32;
    ||| 0x09 <= u <= 0x0d
    ||| u == 0x20
    ||| u == 0x85
    ||| u == 0xa0
    ||| u == 0x1680
    ||| 0x2000 <= u <= 0x200a
    ||| u == 0x2028
    ||| u == 0x2029
    ||| u == 0x202f
    ||| u == 0x205f
    ||| u == 0x3000
}

/// The number of words of a text, a word being a maximal run of characters
/// that are not white space: the positions where such a run starts.
pub open spec fn word_count(text: Seq<char>) -> nat
    decreases text.len(),
{
    if text.len() == 0 {
        0
    } else {
        let n = text.len() as int;
        let starts_word = !is_white_space(text[n - 1]) && (n == 1 || is_white_space(text[n - 2]));
        word_count(text.drop_last()) + if starts_word {
            1nat
        } else {
            0nat
        }
    }
}

/// Whether a character is white space, in Unicode's sense.
pub fn char_is_white_space(c: char) -> (r: bool)
    ensures
        r == is_white_space(c),
{
    let u = c as u32;
    (0x09 <= u && u <= 0x0d) || u == 0x20 || u == 0x85 || u == 0xa0 || u == 0x1680 || (0x2000
        <= u && u <= 0x200a) || u == 0x2028 || u == 0x2029 || u == 0x202f || u == 0x205f || u
        == 0x3000
}

proof fn lemma_word_count_bounded(text: Seq<char>)
    ensures
        word_count(text) <= text.len(),
    decreases text.len(),
{
    if text.len() > 0 {
        lemma_word_count_bounded(text.drop_last());
    }
}

proof fn lemma_utf8_at_least_one_byte_per_char(chars: Seq<char>)
    ensures
        encode_utf8(chars).len() >= chars.len(),
    decreases chars.len(),
{
    if chars.len() > 0 {
        lemma_utf8_at_least_one_byte_per_char(chars.drop_first());
    }
}

/// The number of white-space separated words of a text.
pub fn count_words(text: &str) -> (r: usize)
    ensures
        r == word_count(text@),
{
    let byte_len = text.as_bytes().len();
    proof {
        lemma_utf8_at_least_one_byte_per_char(text@);
    }
    let mut count: usize = 0;
    let mut prev_white = true;
    let ghost mut seen: Seq<char> = seq![];
    for c in it: text.chars()
        invariant
            it.seq() == text@,
            seen == text@.take(it.index() as int),
            text@.len() <= byte_len,
            count == word_count(seen),
            prev_white == (seen.len() == 0 || is_white_space(seen.last())),
    {
        let white = char_is_white_space(c);
        proof {
            assert(seen.push(c).drop_last() =~= seen);
        }
        if !white && prev_white {
            proof {
                lemma_word_count_bounded(seen);
            }
            count = count + 1;
        }
        prev_white = white;
        proof {
            seen = seen.push(c);
        }
    }
    assert(text@.take(text@.len() as int) =~= text@);
    count
}


/// Words run together, in order.
pub open spec fn concat_words(words: Seq<Seq<char>>) -> Seq<char>
    decreases words.len(),
{
    if words.len() == 0 {
        seq![]
    } else {
        concat_words(words.drop_last()) + words.last()
    }
}

/// Whether a character is printable 7-bit ASCII other than the space.
pub open spec fn is_graphic(c: char) -> bool {
    0x21 <= (c as u32) <= 0x7e
}

/// Whether every character of a word is printable 7-bit ASCII other than the
/// space, and there is at least one.
pub open spec fn is_printable_word(w: Seq<char>) -> bool {
    &&& w.len() > 0
    &&& forall|j: int| 0 <= j < w.len() ==> is_graphic(#[trigger] w[j])
}

proof fn lemma_scan_words_partition(text: Seq<char>)
    ensures
        ({
            let (done, cur) = scan_words(text);
            &&& concat_words(done) + cur == text.filter(|c: char| c != ' ')
            &&& forall|i: int| 0 <= i < done.len() ==> (#[trigger] done[i]).len() > 0 && !done[i].contains(' ')
            &&& !cur.contains(' ')
        }),
    decreases text.len(),
{
    reveal_with_fuel(Seq::filter, 1);
    if text.len() > 0 {
        let prev = text.drop_last();
        lemma_scan_words_partition(prev);
        let (done, cur) = scan_words(prev);
        let c = text.last();
        if c == ' ' {
            if cur.len() > 0 {
                assert(done.push(cur).drop_last() =~= done);
            }
        } else {
            assert((concat_words(done) + cur).push(c) =~= concat_words(done) + cur.push(c));
            assert forall|k: int| 0 <= k < cur.push(c).len() implies cur.push(c)[k] != ' ' by {
                if k < cur.len() {
                    assert(!cur.contains(' ') ==> cur[k] != ' ');
                }
            }
        }
    } else {
        assert(text.filter(|c: char| c != ' ') =~= seq![]);
    }
}

/// Splitting a text into words loses nothing but spaces: run together, the
/// words are the text's characters other than the space, in order, and no
/// word is empty or holds a space.
pub proof fn lemma_split_words_partition(text: Seq<char>)
    ensures
        concat_words(split_words(text)) == text.filter(|c: char| c != ' '),
        forall|i: int|
            0 <= i < split_words(text).len() ==> (#[trigger] split_words(text)[i]).len() > 0
                && !split_words(text)[i].contains(' '),
{
    lemma_scan_words_partition(text);
    let (done, cur) = scan_words(text);
    if cur.len() > 0 {
        assert(done.push(cur).drop_last() =~= done);
    } else {
        assert(cur =~= seq![]);
        assert(concat_words(done) + cur =~= concat_words(done));
    }
}

proof fn lemma_visible_text_printable(data: Seq<u8>)
    ensures
        forall|k: int|
            0 <= k < visible_text(data).len() ==> #[trigger] visible_text(data)[k] == ' '
                || is_graphic(visible_text(data)[k]),
    decreases data.len(),
{
    if data.len() > 0 {
        lemma_visible_text_printable(data.drop_last());
        let b = data.last();
        let c = b & 0x7f;
        let rest = visible_text(data.drop_last());
        if let Some(ch) = visible_char(b) {
            assert(ch == c as char);
            assert(ch as u32 == c as u32);
            assert(visible_text(data) == rest.push(ch));
            assert forall|k: int| 0 <= k < rest.push(ch).len() implies #[trigger] rest.push(ch)[k] == ' '
                || is_graphic(rest.push(ch)[k]) by {
                if k < rest.len() {
                    assert(rest.push(ch)[k] == rest[k]);
                }
            }
        }
    }
}

proof fn lemma_scan_words_printable(text: Seq<char>)
    requires
        forall|k: int| 0 <= k < text.len() ==> #[trigger] text[k] == ' ' || is_graphic(text[k]),
    ensures
        ({
            let (done, cur) = scan_words(text);
            &&& forall|i: int| 0 <= i < done.len() ==> is_printable_word(#[trigger] done[i])
            &&& forall|j: int| 0 <= j < cur.len() ==> is_graphic(#[trigger] cur[j])
        }),
    decreases text.len(),
{
    if text.len() > 0 {
        let prev = text.drop_last();
        assert forall|k: int| 0 <= k < prev.len() implies #[trigger] prev[k] == ' ' || is_graphic(prev[k]) by {
            assert(prev[k] == text[k]);
        }
        lemma_scan_words_printable(prev);
        let (done, cur) = scan_words(prev);
        if text.last() != ' ' {
            assert(text[text.len() - 1] == text.last());
        }
    }
}

/// The words read from bytes are printable: each is non-empty and made of
/// printable 7-bit ASCII characters other than the space.
pub proof fn lemma_words_of_bytes_printable(data: Seq<u8>)
    ensures
        forall|i: int|
            0 <= i < split_words(visible_text(data)).len() ==> is_printable_word(
                #[trigger] split_words(visible_text(data))[i],
            ),
{
    lemma_visible_text_printable(data);
    lemma_scan_words_printable(visible_text(data));
}

/// Whether `w` stands whole in `text` from position `start`: its characters
/// are there, and each side is a space or an end of the text.
pub open spec fn stands_at(text: Seq<char>, w: Seq<char>, start: int) -> bool {
    &&& 0 <= start
    &&& start + w.len() <= text.len()
    &&& text.subrange(start, start + w.len()) == w
    &&& (start == 0 || text[start - 1] == ' ')
    &&& (start + w.len() == text.len() || text[start + w.len()] == ' ')
}

/// Where the words closed so far by `scan_words` start in the text.
pub open spec fn scan_starts(text: Seq<char>) -> Seq<int>
    decreases text.len(),
{
    if text.len() == 0 {
        seq![]
    } else {
        let prev = text.drop_last();
        let cur = scan_words(prev).1;
        if text.last() == ' ' && cur.len() > 0 {
            scan_starts(prev).push(prev.len() - cur.len())
        } else {
            scan_starts(prev)
        }
    }
}

/// Where the words of a text start in it.
pub open spec fn word_starts(text: Seq<char>) -> Seq<int> {
    let cur = scan_words(text).1;
    if cur.len() > 0 {
        scan_starts(text).push(text.len() - cur.len())
    } else {
        scan_starts(text)
    }
}

proof fn lemma_stands_at_extend(text: Seq<char>, w: Seq<char>, start: int, c: char)
    requires
        stands_at(text, w, start),
        start + w.len() < text.len(),
    ensures
        stands_at(text.push(c), w, start),
{
    assert(text.push(c).subrange(start, start + w.len()) =~= text.subrange(start, start + w.len()));
}

proof fn lemma_scan_words_positions(text: Seq<char>)
    ensures
        ({
            let (done, cur) = scan_words(text);
            let st = scan_starts(text);
            let cs = text.len() - cur.len();
            &&& st.len() == done.len()
            &&& 0 <= cs
            &&& cur == text.subrange(cs, text.len() as int)
            &&& (cs == 0 || text[cs - 1] == ' ')
            &&& forall|i: int|
                0 <= i < done.len() ==> stands_at(text, #[trigger] done[i], st[i]) && st[i]
                    + done[i].len() < cs
            &&& forall|i: int|
                0 <= i < done.len() - 1 ==> #[trigger] st[i] + done[i].len() < st[i + 1]
        }),
    decreases text.len(),
{
    if text.len() == 0 {
        assert(scan_words(text).1 =~= text.subrange(0, 0));
    } else {
        let prev = text.drop_last();
        lemma_scan_words_positions(prev);
        let (done, cur) = scan_words(prev);
        let st = scan_starts(prev);
        let c = text.last();
        let n = prev.len() as int;
        let cs = n - cur.len();
        assert(text =~= prev.push(c));
        assert forall|i: int| 0 <= i < done.len() implies stands_at(text, #[trigger] done[i], st[i])
            by {
            lemma_stands_at_extend(prev, done[i], st[i], c);
        }
        if c == ' ' {
            if cur.len() > 0 {
                let done2 = done.push(cur);
                let st2 = st.push(cs);
                assert(text.subrange(cs, cs + cur.len()) =~= prev.subrange(cs, n));
                assert(stands_at(text, cur, cs));
                assert forall|i: int| 0 <= i < done2.len() implies stands_at(
                    text,
                    #[trigger] done2[i],
                    st2[i],
                ) && st2[i] + done2[i].len() < text.len() by {
                    if i < done.len() {
                        assert(done2[i] == done[i]);
                        assert(st2[i] == st[i]);
                    }
                }
                assert forall|i: int| 0 <= i < done2.len() - 1 implies #[trigger] st2[i]
                    + done2[i].len() < st2[i + 1] by {
                    assert(st2[i] == st[i]);
                    assert(done2[i] == done[i]);
                    if i + 1 < done.len() {
                        assert(st2[i + 1] == st[i + 1]);
                    }
                }
                assert(seq![] =~= text.subrange(text.len() as int, text.len() as int));
            } else {
                assert(seq![] =~= text.subrange(text.len() as int, text.len() as int));
            }
        } else {
            assert(cur.push(c) =~= text.subrange(cs, text.len() as int));
            if cs > 0 {
                assert(text[cs - 1] == prev[cs - 1]);
            }
        }
    }
}

/// The words of a text are its maximal runs of non-space characters, in
/// order: each stands whole in the text at its start, with a space or an end
/// of the text on either side, and each ends before the next one starts.
pub proof fn lemma_split_words_maximal(text: Seq<char>)
    ensures
        word_starts(text).len() == split_words(text).len(),
        forall|i: int|
            0 <= i < split_words(text).len() ==> stands_at(
                text,
                #[trigger] split_words(text)[i],
                word_starts(text)[i],
            ),
        forall|i: int|
            0 <= i < split_words(text).len() - 1 ==> #[trigger] word_starts(text)[i]
                + split_words(text)[i].len() < word_starts(text)[i + 1],
{
    lemma_scan_words_positions(text);
    let (done, cur) = scan_words(text);
    let st = scan_starts(text);
    let cs = text.len() - cur.len();
    if cur.len() > 0 {
        let words = done.push(cur);
        let starts = st.push(cs);
        assert(split_words(text) == words);
        assert(word_starts(text) == starts);
        assert(text.subrange(cs, cs + cur.len()) =~= text.subrange(cs, text.len() as int));
        assert forall|i: int| 0 <= i < words.len() implies stands_at(text, #[trigger] words[i], starts[i]) by {
            if i < done.len() {
                assert(words[i] == done[i]);
                assert(starts[i] == st[i]);
            }
        }
        assert forall|i: int| 0 <= i < words.len() - 1 implies #[trigger] starts[i] + words[i].len()
            < starts[i + 1] by {
            assert(starts[i] == st[i]);
            assert(words[i] == done[i]);
            if i + 1 < done.len() {
                assert(starts[i + 1] == st[i + 1]);
            }
        }
    }
}

/// White space is exactly Unicode's `White_Space` property: the code points
/// U+0009 to U+000D, U+0020, U+0085, U+00A0, U+1680, U+2000 to U+200A,
/// U+2028, U+2029, U+202F, U+205F and U+3000. Among ASCII characters that is
/// the space and the controls from tab to carriage return; no graphic ASCII
/// character is white space.
pub proof fn lemma_white_space_code_points(c: char)
    ensures
        is_white_space(c) <==> {
            let u = c as u32;
            ||| u == 0x09 || u == 0x0a || u == 0x0b || u == 0x0c || u == 0x0d
            ||| u == 0x20 || u == 0x85 || u == 0xa0 || u == 0x1680
            ||| u == 0x2000 || u == 0x2001 || u == 0x2002 || u == 0x2003 || u == 0x2004
            ||| u == 0x2005 || u == 0x2006 || u == 0x2007 || u == 0x2008 || u == 0x2009
            ||| u == 0x200a || u == 0x2028 || u == 0x2029 || u == 0x202f || u == 0x205f
            ||| u == 0x3000
        },
        (c as u32) < 0x80 ==> (is_white_space(c) <==> (c == ' ' || c == '\t' || c == '\n'
            || c == '\x0b' || c == '\x0c' || c == '\r')),
        0x21 <= (c as u32) <= 0x7e ==> !is_white_space(c),
{
}

/// A non-empty text without white space is one word.
pub proof fn lemma_word_count_single_word(text: Seq<char>)
    requires
        text.len() > 0,
        forall|i: int| 0 <= i < text.len() ==> !is_white_space(#[trigger] text[i]),
    ensures
        word_count(text) == 1,
    decreases text.len(),
{
    if text.len() > 1 {
        let prev = text.drop_last();
        assert forall|i: int| 0 <= i < prev.len() implies !is_white_space(#[trigger] prev[i]) by {
            assert(prev[i] == text[i]);
        }
        lemma_word_count_single_word(prev);
        assert(!is_white_space(text[text.len() - 2]));
        assert(!is_white_space(text[text.len() - 1]));
    } else {
        assert(word_count(text.drop_last()) == 0);
        assert(!is_white_space(text[0]));
    }
}

/// A non-empty text of graphic ASCII characters is one word.
pub proof fn lemma_word_count_graphic_ascii(text: Seq<char>)
    requires
        text.len() > 0,
        forall|i: int| 0 <= i < text.len() ==> 0x21 <= (#[trigger] text[i] as u32) <= 0x7e,
    ensures
        word_count(text) == 1,
{
    assert forall|i: int| 0 <= i < text.len() implies !is_white_space(#[trigger] text[i]) by {
        lemma_white_space_code_points(text[i]);
    }
    lemma_word_count_single_word(text);
}

/// A text of white space alone holds no word.
pub proof fn lemma_word_count_all_white(text: Seq<char>)
    requires
        forall|i: int| 0 <= i < text.len() ==> is_white_space(#[trigger] text[i]),
    ensures
        word_count(text) == 0,
    decreases text.len(),
{
    if text.len() > 0 {
        let prev = text.drop_last();
        assert forall|i: int| 0 <= i < prev.len() implies is_white_space(#[trigger] prev[i]) by {
            assert(prev[i] == text[i]);
        }
        lemma_word_count_all_white(prev);
        assert(is_white_space(text[text.len() - 1]));
    }
}

/// White space separates words: the words of two texts joined by a white
/// space character are the words of each, added up.
pub proof fn lemma_word_count_split(a: Seq<char>, w: char, b: Seq<char>)
    requires
        is_white_space(w),
    ensures
        word_count(a.push(w) + b) == word_count(a) + word_count(b),
    decreases b.len(),
{
    let t = a.push(w) + b;
    if b.len() == 0 {
        assert(t =~= a.push(w));
        assert(a.push(w).drop_last() =~= a);
    } else {
        let b2 = b.drop_last();
        lemma_word_count_split(a, w, b2);
        let t2 = a.push(w) + b2;
        assert(t.drop_last() =~= t2);
        assert(t[t.len() - 1] == b[b.len() - 1]);
        if b2.len() == 0 {
            assert(t[t.len() - 2] == w);
            assert(b.drop_last() =~= b2);
        } else {
            assert(t[t.len() - 2] == b[b.len() - 2]);
        }
    }
}

/// A byte shows as the 7-bit ASCII character of its low seven bits when that
/// character is printable (graphic, from `!` to `~`, or the space) and as
/// nothing otherwise; a byte string shows what its bytes show, in order.
pub proof fn lemma_visible_text_of_bytes(a: Seq<u8>, b: Seq<u8>, x: u8)
    ensures
        visible_text(a + b) == visible_text(a) + visible_text(b),
        0x20 <= (x & 0x7f) <= 0x7e ==> visible_text(seq![x]) == seq![(x & 0x7f) as char],
        !(0x20 <= (x & 0x7f) <= 0x7e) ==> visible_text(seq![x]) == Seq::<char>::empty(),
    decreases b.len(),
{
    let sx = seq![x];
    assert(sx.drop_last() =~= Seq::<u8>::empty());
    assert(sx.last() == x);
    assert(visible_text(sx.drop_last()) == Seq::<char>::empty());
    let c = x & 0x7f;
    if 0x20 <= c <= 0x7e {
        assert(visible_char(x) == Some(c as char));
        assert(Seq::<char>::empty().push(c as char) =~= seq![c as char]);
    } else {
        assert(visible_char(x) is None);
    }
    if b.len() == 0 {
        assert(a + b =~= a);
        assert(visible_text(a) + visible_text(b) =~= visible_text(a));
    } else {
        lemma_visible_text_of_bytes(a, b.drop_last(), x);
        assert((a + b).drop_last() =~= a + b.drop_last());
        assert((a + b).last() == b.last());
        let v = visible_text(a) + visible_text(b.drop_last());
        match visible_char(b.last()) {
            Some(c) => {
                assert(v.push(c) =~= visible_text(a) + visible_text(b.drop_last()).push(c));
            },
            None => {},
        }
    }
}

proof fn lemma_scan_words_no_space(text: Seq<char>)
    requires
        forall|i: int| 0 <= i < text.len() ==> #[trigger] text[i] != ' ',
    ensures
        scan_words(text) == (Seq::<Seq<char>>::empty(), text),
    decreases text.len(),
{
    if text.len() > 0 {
        let prev = text.drop_last();
        assert forall|i: int| 0 <= i < prev.len() implies #[trigger] prev[i] != ' ' by {
            assert(prev[i] == text[i]);
        }
        lemma_scan_words_no_space(prev);
        assert(text[text.len() - 1] != ' ');
        assert(prev.push(text.last()) =~= text);
    }
}

/// Bytes whose low seven bits are all graphic ASCII characters (from `!` to
/// `~`) read back as a single word: those characters, in order.
pub proof fn lemma_graphic_bytes_one_word(data: Seq<u8>)
    requires
        data.len() > 0,
        forall|i: int| 0 <= i < data.len() ==> 0x21 <= (#[trigger] data[i] & 0x7f) <= 0x7e,
    ensures
        split_words(visible_text(data)) == seq![
            Seq::new(data.len(), |i: int| (data[i] & 0x7f) as char),
        ],
    decreases data.len(),
{
    let chars = Seq::new(data.len(), |i: int| (data[i] & 0x7f) as char);
    lemma_graphic_bytes_text(data);
    assert forall|i: int| 0 <= i < chars.len() implies #[trigger] chars[i] != ' ' by {
        let b = data[i];
        assert(0x21 <= (b & 0x7f) <= 0x7e);
        assert(chars[i] as u32 == (b & 0x7f) as u32);
    }
    lemma_scan_words_no_space(chars);
}

/// Bytes whose low seven bits are all graphic ASCII characters show those
/// characters, in order.
pub proof fn lemma_graphic_bytes_text(data: Seq<u8>)
    requires
        forall|i: int| 0 <= i < data.len() ==> 0x21 <= (#[trigger] data[i] & 0x7f) <= 0x7e,
    ensures
        visible_text(data) == Seq::new(data.len(), |i: int| (data[i] & 0x7f) as char),
    decreases data.len(),
{
    if data.len() > 0 {
        let prev = data.drop_last();
        assert forall|i: int| 0 <= i < prev.len() implies 0x21 <= (#[trigger] prev[i] & 0x7f) <= 0x7e by {
            assert(prev[i] == data[i]);
        }
        lemma_graphic_bytes_text(prev);
        let b = data.last();
        assert(0x21 <= (data[data.len() - 1] & 0x7f) <= 0x7e);
        assert(Seq::new(prev.len(), |i: int| (prev[i] & 0x7f) as char).push((b & 0x7f) as char)
            =~= Seq::new(data.len(), |i: int| (data[i] & 0x7f) as char));
    }
}

proof fn lemma_scan_words_extend_no_space(p: Seq<char>, q: Seq<char>)
    requires
        forall|i: int| 0 <= i < q.len() ==> #[trigger] q[i] != ' ',
    ensures
        scan_words(p + q) == (scan_words(p).0, scan_words(p).1 + q),
    decreases q.len(),
{
    if q.len() == 0 {
        assert(p + q =~= p);
        assert(scan_words(p).1 + q =~= scan_words(p).1);
    } else {
        let q2 = q.drop_last();
        assert forall|i: int| 0 <= i < q2.len() implies #[trigger] q2[i] != ' ' by {
            assert(q2[i] == q[i]);
        }
        lemma_scan_words_extend_no_space(p, q2);
        assert((p + q).drop_last() =~= p + q2);
        assert((p + q).last() == q[q.len() - 1]);
        assert((scan_words(p).1 + q2).push(q.last()) =~= scan_words(p).1 + q);
    }
}

/// Two runs of non-space characters joined by one space are two words.
pub proof fn lemma_two_words(first: Seq<char>, second: Seq<char>)
    requires
        first.len() > 0,
        second.len() > 0,
        forall|i: int| 0 <= i < first.len() ==> #[trigger] first[i] != ' ',
        forall|i: int| 0 <= i < second.len() ==> #[trigger] second[i] != ' ',
    ensures
        split_words(first.push(' ') + second) == seq![first, second],
{
    lemma_scan_words_no_space(first);
    let p = first.push(' ');
    assert(p.drop_last() =~= first);
    assert(scan_words(p) == (seq![first], Seq::<char>::empty()));
    lemma_scan_words_extend_no_space(p, second);
    assert(Seq::<char>::empty() + second =~= second);
    assert(seq![first].push(second) =~= seq![first, second]);
}

} // verus!
