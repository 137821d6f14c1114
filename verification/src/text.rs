//! Text primitives: whitespace, searching, joining and comparison over characters.

use vstd::prelude::*;

verus! {

/// `needle` stands in `hay` at position `i`.
pub open spec fn occurs_at(hay: Seq<char>, needle: Seq<char>, i: int) -> bool {
    &&& 0 <= i
    &&& i + needle.len() <= hay.len()
    &&& hay.subrange(i, i + needle.len()) == needle
}

/// `needle` stands somewhere in `hay`.
pub open spec fn occurs_in(hay: Seq<char>, needle: Seq<char>) -> bool {
    exists|i: int| occurs_at(hay, needle, i)
}

/// `i` is the first position at or after `from` where `needle` stands in `hay`.
pub open spec fn first_occurrence(hay: Seq<char>, needle: Seq<char>, from: int, i: int) -> bool {
    &&& from <= i
    &&& occurs_at(hay, needle, i)
    &&& forall|k: int| from <= k < i ==> !occurs_at(hay, needle, k)
}

/// `text` begins with `prefix`.
pub open spec fn begins_with(text: Seq<char>, prefix: Seq<char>) -> bool {
    prefix.is_prefix_of(text)
}

/// The characters with the Unicode `White_Space` property.
pub open spec fn whitespace(c: char) -> bool {
    let u = c as u32;
    ||| 0x9 <= u <= 0xD
    ||| u == 0x20
    ||| u == 0x85
    ||| u == 0xA0
    ||| u == 0x1680
    ||| 0x2000 <= u <= 0x200A
    ||| u == 0x2028
    ||| u == 0x2029
    ||| u == 0x202F
    ||| u == 0x205F
    ||| u == 0x3000
}

/// Nothing is left of `text` once surrounding whitespace is trimmed.
pub open spec fn blank(text: Seq<char>) -> bool {
    forall|i: int| 0 <= i < text.len() ==> whitespace(#[trigger] text[i])
}

/// `parts` in order, with `sep` between neighbours.
pub open spec fn joined(parts: Seq<Seq<char>>, sep: Seq<char>) -> Seq<char>
    decreases parts.len(),
{
    if parts.len() == 0 {
        Seq::empty()
    } else if parts.len() == 1 {
        parts[0]
    } else {
        joined(parts.drop_last(), sep) + sep + parts.last()
    }
}

/// The characters of each string of a list.
pub open spec fn texts(list: Seq<String>) -> Seq<Seq<char>> {
    list.map_values(|s: String| s@)
}

/// The characters of an optional string.
pub open spec fn opt_text(text: Option<String>) -> Option<Seq<char>> {
    match text {
        Some(s) => Some(s@),
        None => None,
    }
}

/// The ASCII lower-case form of `c`.
pub open spec fn ascii_lower(c: char) -> char {
    if 'A' <= c && c <= 'Z' {
        ((c as u32 + 32) as u32) as char
    } else {
        c
    }
}

/// `text` with its ASCII letters in lower case.
pub open spec fn lowered(text: Seq<char>) -> Seq<char> {
    text.map_values(|c: char| ascii_lower(c))
}

/// The last characters of `text` are `suffix`, reading ASCII letters of `text` as lower case.
pub open spec fn ends_with_lowered(text: Seq<char>, suffix: Seq<char>) -> bool {
    &&& suffix.len() <= text.len()
    &&& forall|i: int|
        0 <= i < suffix.len() ==> ascii_lower(#[trigger] text[text.len() - suffix.len() + i])
            == suffix[i]
}

/// The characters of `s`, indexable.
pub fn to_chars(s: &str) -> (r: Vec<char>)
    ensures
        r@ == s@,
{
    let mut out: Vec<char> = Vec::new();
    for c in it: s.chars()
        invariant
            it.seq() == s@,
            out@ == s@.take(it.index() as int),
    {
        out.push(c);
    }
    out
}

/// Whether two texts hold the same characters.
pub fn same(a: &str, b: &str) -> (r: bool)
    ensures
        r == (a@ == b@),
{
    a.to_owned() == b.to_owned()
}

/// Whether `needle` stands in `hay` at position `i`.
fn stands_at(hay: &Vec<char>, needle: &Vec<char>, i: usize) -> (r: bool)
    requires
        i <= hay@.len(),
    ensures
        r == occurs_at(hay@, needle@, i as int),
{
    if needle.len() > hay.len() - i {
        return false;
    }
    let mut k: usize = 0;
    while k < needle.len()
        invariant
            k <= needle@.len(),
            i + needle@.len() <= hay@.len() <= usize::MAX,
            forall|j: int| 0 <= j < k ==> hay@[i + j] == needle@[j],
        decreases needle@.len() - k,
    {
        if hay[i + k] != needle[k] {
            assert(hay@.subrange(i as int, i + needle@.len())[k as int] != needle@[k as int]);
            return false;
        }
        k = k + 1;
    }
    assert(hay@.subrange(i as int, i + needle@.len()) =~= needle@);
    true
}

/// The first position at or after `from` where `needle` stands in `hay`.
pub fn find_from(hay: &Vec<char>, needle: &Vec<char>, from: usize) -> (r: Option<usize>)
    requires
        from <= hay@.len(),
    ensures
        match r {
            Some(i) => first_occurrence(hay@, needle@, from as int, i as int),
            None => forall|k: int| from <= k ==> !occurs_at(hay@, needle@, k),
        },
{
    let mut i: usize = from;
    loop
        invariant
            from <= i <= hay@.len(),
            forall|k: int| from <= k < i ==> !occurs_at(hay@, needle@, k),
        decreases hay@.len() - i,
    {
        if stands_at(hay, needle, i) {
            return Some(i);
        }
        if i == hay.len() {
            return None;
        }
        i = i + 1;
    }
}

/// Whether `needle` stands somewhere in `hay`.
pub fn contains(hay: &str, needle: &str) -> (r: bool)
    ensures
        r == occurs_in(hay@, needle@),
{
    let h: Vec<char> = to_chars(hay);
    let n: Vec<char> = to_chars(needle);
    match find_from(&h, &n, 0) {
        Some(i) => {
            assert(occurs_at(hay@, needle@, i as int));
            true
        },
        None => false,
    }
}

/// Whether `text` begins with `prefix`.
pub fn starts_with(text: &str, prefix: &str) -> (r: bool)
    ensures
        r == begins_with(text@, prefix@),
{
    let t: Vec<char> = to_chars(text);
    let p: Vec<char> = to_chars(prefix);
    let r: bool = stands_at(&t, &p, 0);
    proof {
        if r {
            assert(text@.subrange(0, prefix@.len() as int) == prefix@);
        }
        if prefix@.is_prefix_of(text@) {
            assert(text@.subrange(0, prefix@.len() as int) =~= prefix@);
        }
    }
    r
}

/// Whether `c`, read in ASCII lower case, is `target`.
fn lowers_to(c: char, target: char) -> (r: bool)
    ensures
        r == (ascii_lower(c) == target),
{
    if 'A' <= c && c <= 'Z' {
        c as u32 + 32 == target as u32
    } else {
        c == target
    }
}

/// The code of `c` in ASCII lower case.
fn lower_code(c: char) -> (r: u32)
    ensures
        r == ascii_lower(c) as u32,
{
    if 'A' <= c && c <= 'Z' {
        c as u32 + 32
    } else {
        c as u32
    }
}

/// Whether two texts are the same but for the case of ASCII letters.
pub fn same_any_case(a: &str, b: &str) -> (r: bool)
    ensures
        r == (lowered(a@) == lowered(b@)),
{
    let x: Vec<char> = to_chars(a);
    let y: Vec<char> = to_chars(b);
    if x.len() != y.len() {
        assert(lowered(a@).len() != lowered(b@).len());
        return false;
    }
    let mut i: usize = 0;
    while i < x.len()
        invariant
            x@ == a@,
            y@ == b@,
            i <= x@.len() == y@.len(),
            forall|k: int| 0 <= k < i ==> ascii_lower(#[trigger] a@[k]) == ascii_lower(b@[k]),
        decreases x@.len() - i,
    {
        if lower_code(x[i]) != lower_code(y[i]) {
            assert(lowered(a@)[i as int] != lowered(b@)[i as int]);
            return false;
        }
        i = i + 1;
    }
    assert(lowered(a@) =~= lowered(b@));
    true
}

/// Whether `text` ends with `suffix`, reading ASCII letters of `text` as lower case.
pub fn ends_lowered(text: &str, suffix: &str) -> (r: bool)
    ensures
        r == ends_with_lowered(text@, suffix@),
{
    let t: Vec<char> = to_chars(text);
    let s: Vec<char> = to_chars(suffix);
    if s.len() > t.len() {
        return false;
    }
    let base: usize = t.len() - s.len();
    let mut k: usize = 0;
    while k < s.len()
        invariant
            t@ == text@,
            s@ == suffix@,
            k <= s@.len() <= t@.len() <= usize::MAX,
            base == t@.len() - s@.len(),
            forall|i: int| 0 <= i < k ==> ascii_lower(#[trigger] text@[base + i]) == suffix@[i],
        decreases s@.len() - k,
    {
        if !lowers_to(t[base + k], s[k]) {
            assert(ascii_lower(text@[text@.len() - suffix@.len() + k]) != suffix@[k as int]);
            return false;
        }
        k = k + 1;
    }
    true
}

/// Whether `c` has the `White_Space` property.
fn is_whitespace(c: char) -> (r: bool)
    ensures
        r == whitespace(c),
{
    let u: u32 = c as u32;
    (0x9 <= u && u <= 0xD) || u == 0x20 || u == 0x85 || u == 0xA0 || u == 0x1680 || (0x2000 <= u
        && u <= 0x200A) || u == 0x2028 || u == 0x2029 || u == 0x202F || u == 0x205F || u == 0x3000
}

/// Whether nothing is left of `text` once surrounding whitespace is trimmed.
pub fn is_blank(text: &str) -> (r: bool)
    ensures
        r == blank(text@),
{
    let t: Vec<char> = to_chars(text);
    let mut i: usize = 0;
    while i < t.len()
        invariant
            t@ == text@,
            i <= t@.len(),
            forall|k: int| 0 <= k < i ==> whitespace(#[trigger] text@[k]),
        decreases t@.len() - i,
    {
        if !is_whitespace(t[i]) {
            assert(!whitespace(text@[i as int]));
            return false;
        }
        i = i + 1;
    }
    true
}

/// `parts` in order, with `sep` between neighbours.
pub fn join(parts: &Vec<String>, sep: &str) -> (r: String)
    ensures
        r@ == joined(texts(parts@), sep@),
{
    let mut out: String = String::new();
    let mut i: usize = 0;
    while i < parts.len()
        invariant
            i <= parts@.len(),
            out@ == joined(texts(parts@).take(i as int), sep@),
        decreases parts@.len() - i,
    {
        proof {
            let t = texts(parts@);
            assert(t.take(i + 1).drop_last() =~= t.take(i as int));
            assert(t.take(i + 1).last() == parts@[i as int]@);
        }
        if i > 0 {
            out.append(sep);
        }
        out.append(parts[i].as_str());
        proof {
            assert(out@ =~= joined(texts(parts@).take(i + 1), sep@));
        }
        i = i + 1;
    }
    assert(texts(parts@).take(parts@.len() as int) =~= texts(parts@));
    out
}

/// Whether some string of `list` is `item`.
pub fn list_has(list: &Vec<String>, item: &str) -> (r: bool)
    ensures
        r == texts(list@).contains(item@),
{
    let mut i: usize = 0;
    while i < list.len()
        invariant
            i <= list@.len(),
            forall|k: int| 0 <= k < i ==> (#[trigger] list@[k])@ != item@,
        decreases list@.len() - i,
    {
        if same(list[i].as_str(), item) {
            assert(texts(list@)[i as int] == item@);
            return true;
        }
        i = i + 1;
    }
    assert forall|k: int| 0 <= k < texts(list@).len() implies texts(list@)[k] != item@ by {
        assert(list@[k]@ != item@);
    }
    false
}

/// A copy of a list of strings.
pub fn copy_list(list: &Vec<String>) -> (r: Vec<String>)
    ensures
        r@ == list@,
{
    let mut out: Vec<String> = Vec::new();
    let mut i: usize = 0;
    while i < list.len()
        invariant
            i <= list@.len(),
            out@ == list@.take(i as int),
        decreases list@.len() - i,
    {
        out.push(list[i].clone());
        i = i + 1;
    }
    out
}

/// A copy of an optional string.
pub fn copy_opt(text: &Option<String>) -> (r: Option<String>)
    ensures
        r == *text,
{
    match text {
        Some(s) => Some(s.clone()),
        None => None,
    }
}

/// `a` followed by `b`.
pub fn cat(a: &str, b: &str) -> (r: String)
    ensures
        r@ == a@ + b@,
{
    let mut out: String = a.to_owned();
    out.append(b);
    out
}

/// `text` without the whitespace at its end.
pub open spec fn trimmed_end(text: Seq<char>) -> Seq<char>
    decreases text.len(),
{
    if text.len() > 0 && whitespace(text.last()) {
        trimmed_end(text.drop_last())
    } else {
        text
    }
}

/// `text` without the whitespace at its end.
pub fn trim_end(text: &str) -> (r: String)
    ensures
        r@ == trimmed_end(text@),
{
    let t: Vec<char> = to_chars(text);
    let mut n: usize = t.len();
    assert(text@.take(n as int) =~= text@);
    while n > 0 && is_whitespace(t[n - 1])
        invariant
            t@ == text@,
            n <= t@.len(),
            trimmed_end(text@) == trimmed_end(text@.take(n as int)),
        decreases n,
    {
        assert(text@.take(n as int).drop_last() =~= text@.take(n - 1));
        n = n - 1;
    }
    text.substring_char(0, n).to_owned()
}

/// A text is blank exactly where the code of each of its characters is that of white space, which
/// no visible character of ASCII is.
pub proof fn law_blank_texts_are_white_space(text: Seq<char>)
    ensures
        blank(text) <==> forall|i: int|
            0 <= i < text.len() ==> {
                let u = (#[trigger] text[i]) as u32;
                u == 9 || u == 10 || u == 11 || u == 12 || u == 13 || u == 32 || u == 133 || u
                    == 160 || u == 5760 || (8192 <= u && u <= 8202) || u == 8232 || u == 8233 || u
                    == 8239 || u == 8287 || u == 12288
            },
        forall|i: int| 0 <= i < text.len() && 33 <= (#[trigger] text[i]) as u32 <= 126 ==> !blank(
            text,
        ),
{
    if blank(text) {
        assert forall|i: int| 0 <= i < text.len() implies ({
            let u = (#[trigger] text[i]) as u32;
            u == 9 || u == 10 || u == 11 || u == 12 || u == 13 || u == 32 || u == 133 || u == 160
                || u == 5760 || (8192 <= u && u <= 8202) || u == 8232 || u == 8233 || u == 8239 || u
                == 8287 || u == 12288
        }) by {
            assert(whitespace(text[i]));
        }
    }
}

/// Whether a text is blank is decided by its parts.
pub proof fn law_blank_parts_make_a_blank_text(a: Seq<char>, b: Seq<char>)
    ensures
        blank(a + b) <==> blank(a) && blank(b),
        blank(Seq::<char>::empty()),
{
    if blank(a + b) {
        assert forall|i: int| 0 <= i < a.len() implies whitespace(#[trigger] a[i]) by {
            assert((a + b)[i] == a[i]);
        }
        assert forall|i: int| 0 <= i < b.len() implies whitespace(#[trigger] b[i]) by {
            assert((a + b)[a.len() + i] == b[i]);
        }
    }
}

/// A text begins with a prefix exactly where it is that prefix and something behind it.
pub proof fn law_a_prefix_and_the_rest_make_the_text(text: Seq<char>, prefix: Seq<char>)
    ensures
        begins_with(text, prefix) <==> exists|rest: Seq<char>| text == #[trigger] (prefix + rest),
        begins_with(prefix + text, prefix),
        text.len() < prefix.len() ==> !begins_with(text, prefix),
{
    if begins_with(text, prefix) {
        assert(text =~= prefix + text.skip(prefix.len() as int));
    }
    if exists|rest: Seq<char>| text == #[trigger] (prefix + rest) {
        let rest = choose|rest: Seq<char>| text == #[trigger] (prefix + rest);
        assert(prefix =~= text.subrange(0, prefix.len() as int));
    }
    assert(prefix =~= (prefix + text).subrange(0, prefix.len() as int));
}

/// A needle stands in a text exactly where the text is something, the needle and something more;
/// the empty needle stands in every text.
pub proof fn law_a_needle_stands_between_two_parts(hay: Seq<char>, needle: Seq<char>)
    ensures
        occurs_in(hay, needle) <==> exists|a: Seq<char>, b: Seq<char>|
            hay == #[trigger] (a + needle + b),
        needle.len() == 0 ==> occurs_in(hay, needle),
{
    if occurs_in(hay, needle) {
        let i = choose|i: int| occurs_at(hay, needle, i);
        let a = hay.take(i);
        let b = hay.skip(i + needle.len());
        assert(hay =~= a + hay.subrange(i, i + needle.len()) + b);
        assert(hay == a + needle + b);
    }
    if exists|a: Seq<char>, b: Seq<char>| hay == #[trigger] (a + needle + b) {
        let (a, b) = choose|a: Seq<char>, b: Seq<char>| hay == #[trigger] (a + needle + b);
        assert(hay.subrange(a.len() as int, (a.len() + needle.len()) as int) =~= needle);
        assert(occurs_at(hay, needle, a.len() as int));
    }
    if needle.len() == 0 {
        assert(hay.subrange(0, 0) =~= needle);
        assert(occurs_at(hay, needle, 0));
    }
}

/// Nothing joins to nothing and one part to itself; two lists of parts join to what each joins to
/// with the separator between them.
pub proof fn law_joining_goes_part_by_part(
    a: Seq<Seq<char>>,
    b: Seq<Seq<char>>,
    part: Seq<char>,
    sep: Seq<char>,
)
    ensures
        joined(Seq::empty(), sep) == Seq::<char>::empty(),
        joined(seq![part], sep) == part,
        a.len() > 0 && b.len() > 0 ==> joined(a + b, sep) == joined(a, sep) + sep + joined(b, sep),
    decreases b.len(),
{
    if a.len() > 0 && b.len() > 0 {
        assert((a + b).last() == b.last());
        assert((a + b).drop_last() =~= a + b.drop_last());
        if b.len() == 1 {
            assert(a + b.drop_last() =~= a);
            assert(b.last() == b[0]);
        } else {
            law_joining_goes_part_by_part(a, b.drop_last(), part, sep);
            assert(joined(a + b, sep) =~= joined(a, sep) + sep + joined(b, sep));
        }
    }
}

/// Lower case moves the 26 capital letters of ASCII by 32 codes and leaves every other character;
/// it is of the same length, and doing it twice is doing it once.
pub proof fn law_lower_case_moves_capitals_only(text: Seq<char>)
    ensures
        lowered(text).len() == text.len(),
        forall|i: int|
            0 <= i < text.len() ==> (#[trigger] lowered(text)[i]) as u32 == (if 65
                <= text[i] as u32 <= 90 {
                text[i] as u32 + 32
            } else {
                text[i] as int
            }),
        lowered(lowered(text)) == lowered(text),
{
    assert(lowered(lowered(text)) =~= lowered(text));
}

/// A text ends with a suffix, read in lower case, exactly where its lower-case form is something
/// and that suffix.
pub proof fn law_a_lowered_suffix_ends_the_lowered_text(text: Seq<char>, suffix: Seq<char>)
    ensures
        ends_with_lowered(text, suffix) <==> exists|front: Seq<char>|
            lowered(text) == #[trigger] (front + suffix),
{
    if ends_with_lowered(text, suffix) {
        let front = lowered(text).take(text.len() - suffix.len());
        assert(lowered(text) =~= front + suffix) by {
            assert forall|k: int| 0 <= k < text.len() implies lowered(text)[k] == (front
                + suffix)[k] by {
                if k >= front.len() {
                    let i = k - front.len();
                    assert(ascii_lower(text[text.len() - suffix.len() + i]) == suffix[i]);
                }
            }
        }
    }
    if exists|front: Seq<char>| lowered(text) == #[trigger] (front + suffix) {
        let front = choose|front: Seq<char>| lowered(text) == #[trigger] (front + suffix);
        assert(lowered(text).len() == front.len() + suffix.len());
        assert forall|i: int| 0 <= i < suffix.len() implies ascii_lower(
            #[trigger] text[text.len() - suffix.len() + i],
        ) == suffix[i] by {
            assert(lowered(text)[front.len() + i] == suffix[i]);
        }
    }
}

/// Trimming the end takes white space off the end and nothing else: what is left is where the text
/// begins, what is taken is blank, and what is left ends with no white space.
pub proof fn law_trimming_the_end_takes_white_space_only(text: Seq<char>)
    ensures
        trimmed_end(text).len() <= text.len(),
        trimmed_end(text) == text.take(trimmed_end(text).len() as int),
        blank(text.skip(trimmed_end(text).len() as int)),
        trimmed_end(text).len() > 0 ==> !blank(seq![trimmed_end(text).last()]),
    decreases text.len(),
{
    if text.len() > 0 && whitespace(text.last()) {
        let shorter = text.drop_last();
        law_trimming_the_end_takes_white_space_only(shorter);
        let n = trimmed_end(text).len() as int;
        assert(text.take(n) =~= shorter.take(n));
        let rest = text.skip(n);
        assert forall|i: int| 0 <= i < rest.len() implies whitespace(#[trigger] rest[i]) by {
            if i < rest.len() - 1 {
                assert(shorter.skip(n)[i] == rest[i]);
            } else {
                assert(rest[i] == text.last());
            }
        }
    } else {
        assert(text.take(text.len() as int) =~= text);
        if text.len() > 0 {
            let one = seq![text.last()];
            assert(!whitespace(one[0]));
        }
    }
}

/// The texts of a list are its strings, place by place, and so is the text of an optional string.
pub proof fn law_texts_keep_every_string(list: Seq<String>, i: int)
    requires
        0 <= i < list.len(),
    ensures
        texts(list).len() == list.len(),
        texts(list)[i] == list[i]@,
        opt_text(Some(list[i])) == Some(list[i]@),
        opt_text(None) is None,
{
}

/// A needle stands at a place exactly where its characters are those of the text from there on, and
/// the first such place is the one behind which no earlier one is.
pub proof fn law_a_needle_stands_where_its_characters_do(
    hay: Seq<char>,
    needle: Seq<char>,
    from: int,
    i: int,
)
    ensures
        occurs_at(hay, needle, i) <==> 0 <= i && i + needle.len() <= hay.len() && forall|k: int|
            0 <= k < needle.len() ==> hay[i + k] == #[trigger] needle[k],
        first_occurrence(hay, needle, from, i) <==> from <= i && occurs_at(hay, needle, i) && !(
        exists|k: int| from <= k < i && #[trigger] occurs_at(hay, needle, k)),
{
    if 0 <= i && i + needle.len() <= hay.len() {
        let part = hay.subrange(i, i + needle.len());
        if occurs_at(hay, needle, i) {
            assert forall|k: int| 0 <= k < needle.len() implies hay[i + k] == #[trigger] needle[k] by {
                assert(part[k] == hay[i + k]);
            }
        }
        if forall|k: int| 0 <= k < needle.len() ==> hay[i + k] == #[trigger] needle[k] {
            assert(part =~= needle);
        }
    }
}

} // verus!
