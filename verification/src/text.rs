use vstd::prelude::*;

verus! {

/// The text of an optional string.
pub open spec fn opt_text(o: Option<String>) -> Option<Seq<char>> {
    match o {
        Some(s) => Some(s@),
        None => None,
    }
}

/// The texts of a list of strings.
pub open spec fn texts(v: Seq<String>) -> Seq<Seq<char>> {
    v.map_values(|s: String| s@)
}

/// Unicode `White_Space`, the property that `char::is_whitespace` and `str::trim` go by.
pub open spec fn is_white_space(c: char) -> bool {
    let u = c as u32;
    ||| 0x09 <= u <= 0x0D
    ||| u == 0x20
    ||| u == 0x85
    ||| u == 0xA0
    ||| u == 0x1680
    ||| 0x2000 <= u <= 0x200A
    ||| u == 0x2028
    ||| u == 0x2029
    ||| u == 0x202F
    ||| u == 0x205F
    ||| u == 0x3000
}

/// `s` without its leading white space.
pub open spec fn trim_start(s: Seq<char>) -> Seq<char>
    decreases s.len(),
{
    if s.len() > 0 && is_white_space(s[0]) {
        trim_start(s.drop_first())
    } else {
        s
    }
}

/// `s` without its trailing white space.
pub open spec fn trim_end(s: Seq<char>) -> Seq<char>
    decreases s.len(),
{
    if s.len() > 0 && is_white_space(s.last()) {
        trim_end(s.drop_last())
    } else {
        s
    }
}

/// `s` without white space at either end, as `str::trim` gives it.
pub open spec fn trim(s: Seq<char>) -> Seq<char> {
    trim_end(trim_start(s))
}

pub fn is_white_space_char(c: char) -> (b: bool)
    ensures
        b == is_white_space(c),
{
    let u = c as u32;
    (0x09 <= u && u <= 0x0D) || u == 0x20 || u == 0x85 || u == 0xA0 || u == 0x1680 || (0x2000
        <= u && u <= 0x200A) || u == 0x2028 || u == 0x2029 || u == 0x202F || u == 0x205F || u
        == 0x3000
}

proof fn lemma_trim_start_at(s: Seq<char>, k: int)
    requires
        0 <= k <= s.len(),
        forall|j: int| 0 <= j < k ==> is_white_space(#[trigger] s[j]),
        k == s.len() || !is_white_space(s[k]),
    ensures
        trim_start(s) == s.subrange(k, s.len() as int),
    decreases k,
{
    if k == 0 {
        assert(s.subrange(0, s.len() as int) =~= s);
    } else {
        let t = s.drop_first();
        assert forall|j: int| 0 <= j < k - 1 implies is_white_space(#[trigger] t[j]) by {
            assert(t[j] == s[j + 1]);
        }
        lemma_trim_start_at(t, k - 1);
        assert(t.subrange(k - 1, t.len() as int) =~= s.subrange(k, s.len() as int));
    }
}

proof fn lemma_trim_end_at(s: Seq<char>, k: int)
    requires
        0 <= k <= s.len(),
        forall|j: int| k <= j < s.len() ==> is_white_space(#[trigger] s[j]),
        k == 0 || !is_white_space(s[k - 1]),
    ensures
        trim_end(s) == s.subrange(0, k),
    decreases s.len() - k,
{
    if k == s.len() {
        assert(s.subrange(0, k) =~= s);
    } else {
        let t = s.drop_last();
        assert forall|j: int| k <= j < t.len() implies is_white_space(#[trigger] t[j]) by {
            assert(t[j] == s[j]);
        }
        lemma_trim_end_at(t, k);
        assert(t.subrange(0, k) =~= s.subrange(0, k));
    }
}

/// The bounds of the trimmed part of `s`: `trim(s@) == s@[start..end]`.
pub fn trim_bounds(s: &Vec<char>) -> (r: (usize, usize))
    ensures
        r.0 <= r.1 <= s.len(),
        trim(s@) == s@.subrange(r.0 as int, r.1 as int),
{
    let n = s.len();
    let mut start: usize = 0;
    while start < n && is_white_space_char(s[start])
        invariant
            start <= n == s.len(),
            forall|j: int| 0 <= j < start ==> is_white_space(#[trigger] s@[j]),
        decreases n - start,
    {
        start = start + 1;
    }
    proof {
        lemma_trim_start_at(s@, start as int);
    }
    let ghost t = s@.subrange(start as int, n as int);
    let mut end: usize = n;
    while end > start && is_white_space_char(s[end - 1])
        invariant
            start <= end <= n == s.len(),
            t == s@.subrange(start as int, n as int),
            forall|j: int| end <= j < n ==> is_white_space(#[trigger] s@[j]),
        decreases end,
    {
        end = end - 1;
    }
    proof {
        assert forall|j: int| end - start <= j < t.len() implies is_white_space(#[trigger] t[j]) by {
            assert(t[j] == s@[j + start]);
        }
        if end > start {
            assert(t[end - start - 1] == s@[end - 1]);
        }
        lemma_trim_end_at(t, end - start);
        assert(t.subrange(0, end - start) =~= s@.subrange(start as int, end as int));
    }
    (start, end)
}

/// The characters of `s`, in order.
pub fn chars_of(s: &str) -> (v: Vec<char>)
    ensures
        v@ == s@,
{
    broadcast use vstd::string::group_string_axioms;

    let mut v: Vec<char> = Vec::new();
    for c in it: s.chars()
        invariant
            v@ == it.seq().take(it.index()),
            it.seq() == s@,
    {
        v.push(c);
    }
    v
}

/// `String::push` appends one character: the text afterwards is the text
/// before with `ch` at its end, as the standard library documents.
pub assume_specification[ String::push ](s: &mut String, ch: char)
    ensures
        final(s)@ == old(s)@.push(ch),
;

/// The string made of `chars[start..end]`.
pub fn string_from_range(chars: &Vec<char>, start: usize, end: usize) -> (s: String)
    requires
        start <= end <= chars.len(),
    ensures
        s@ == chars@.subrange(start as int, end as int),
{
    let mut s = String::new();
    let mut i = start;
    while i < end
        invariant
            start <= i <= end <= chars.len(),
            s@ == chars@.subrange(start as int, i as int),
        decreases end - i,
    {
        s.push(chars[i]);
        assert(s@ =~= chars@.subrange(start as int, i + 1));
        i = i + 1;
    }
    s
}

/// `s` with white space removed from both ends, as `str::trim` gives it.
pub fn trimmed(s: &str) -> (t: String)
    ensures
        t@ == trim(s@),
{
    let chars = chars_of(s);
    let (start, end) = trim_bounds(&chars);
    string_from_range(&chars, start, end)
}


/// ASCII lower case of one character, as `char::to_ascii_lowercase` gives it.
pub open spec fn ascii_lower(c: char) -> char {
    if 'A' <= c <= 'Z' {
        ((c as u32) + 32) as char
    } else {
        c
    }
}

/// ASCII lower case of a string, as `str::to_ascii_lowercase` gives it.
pub open spec fn ascii_lowercase(s: Seq<char>) -> Seq<char> {
    s.map_values(|c: char| ascii_lower(c))
}

pub fn ascii_lower_char(c: char) -> (r: char)
    ensures
        r == ascii_lower(c),
{
    if 'A' <= c && c <= 'Z' {
        ((c as u8) + 32) as char
    } else {
        c
    }
}

/// The ASCII lower case of `chars`.
pub fn lowercase_chars(chars: &Vec<char>) -> (r: Vec<char>)
    ensures
        r@ == ascii_lowercase(chars@),
{
    let mut r: Vec<char> = Vec::new();
    let mut i: usize = 0;
    while i < chars.len()
        invariant
            i <= chars.len(),
            r@ == ascii_lowercase(chars@.take(i as int)),
        decreases chars.len() - i,
    {
        r.push(ascii_lower_char(chars[i]));
        assert(ascii_lowercase(chars@.take(i + 1)) =~= ascii_lowercase(chars@.take(i as int)).push(
            ascii_lower(chars@[i as int]),
        ));
        i = i + 1;
    }
    assert(chars@.take(chars.len() as int) =~= chars@);
    r
}

/// Whether two character sequences are equal.
pub fn chars_equal(a: &Vec<char>, b: &Vec<char>) -> (eq: bool)
    ensures
        eq == (a@ == b@),
{
    if a.len() != b.len() {
        return false;
    }
    let mut i: usize = 0;
    while i < a.len()
        invariant
            i <= a.len() == b.len(),
            forall|j: int| 0 <= j < i ==> a@[j] == b@[j],
        decreases a.len() - i,
    {
        if a[i] != b[i] {
            return false;
        }
        i = i + 1;
    }
    assert(a@ =~= b@);
    true
}

/// Whether the text of `a` equals the literal `b`.
pub fn text_equals(a: &Vec<char>, b: &str) -> (eq: bool)
    ensures
        eq == (a@ == b@),
{
    let bc = chars_of(b);
    chars_equal(a, &bc)
}

/// The pieces of `s` between occurrences of `sep`, as `str::split` with a
/// character pattern yields them: one more piece than there are separators.
pub open spec fn split_on(s: Seq<char>, sep: char) -> Seq<Seq<char>>
    decreases s.len(),
{
    if s.len() == 0 {
        seq![Seq::<char>::empty()]
    } else {
        let init = split_on(s.drop_last(), sep);
        if s.last() == sep {
            init.push(Seq::<char>::empty())
        } else {
            init.update(init.len() - 1, init.last().push(s.last()))
        }
    }
}

pub proof fn lemma_split_on_nonempty(s: Seq<char>, sep: char)
    ensures
        split_on(s, sep).len() >= 1,
    decreases s.len(),
{
    if s.len() > 0 {
        lemma_split_on_nonempty(s.drop_last(), sep);
    }
}

/// The pieces joined back together with `sep` between neighbours.
pub open spec fn join_with(pieces: Seq<Seq<char>>, sep: char) -> Seq<char>
    decreases pieces.len(),
{
    if pieces.len() == 0 {
        Seq::empty()
    } else if pieces.len() == 1 {
        pieces[0]
    } else {
        join_with(pieces.drop_last(), sep) + seq![sep] + pieces.last()
    }
}

/// `split_on` is `str::split` by a character: there is always at least one
/// piece, no piece holds the separator, and joining the pieces with the
/// separator gives back the text.
pub proof fn lemma_split_on_pieces(s: Seq<char>, sep: char)
    ensures
        split_on(s, sep).len() >= 1,
        join_with(split_on(s, sep), sep) == s,
        forall|i: int, j: int|
            0 <= i < split_on(s, sep).len() && 0 <= j < split_on(s, sep)[i].len()
                ==> #[trigger] split_on(s, sep)[i][j] != sep,
    decreases s.len(),
{
    if s.len() > 0 {
        let t = s.drop_last();
        let c = s.last();
        lemma_split_on_pieces(t, sep);
        let init = split_on(t, sep);
        let n = init.len();
        if c == sep {
            let u = init.push(Seq::<char>::empty());
            assert(u.drop_last() =~= init);
            assert(join_with(u, sep) =~= s);
            assert forall|i: int, j: int| 0 <= i < u.len() && 0 <= j < u[i].len() implies #[trigger] u[i][j] != sep by {
                assert(u[i] == init[i]);
            }
        } else {
            let u = init.update(n - 1, init.last().push(c));
            if n == 1 {
                assert(join_with(u, sep) =~= s);
            } else {
                assert(u.drop_last() =~= init.drop_last());
                let pre = join_with(init.drop_last(), sep) + seq![sep];
                assert(join_with(init, sep) == pre + init.last());
                assert(u.last() == init.last().push(c));
                assert(join_with(u, sep) == pre + init.last().push(c));
                assert(pre + init.last().push(c) =~= (pre + init.last()).push(c));
                assert(t.push(c) =~= s);
            }
            assert forall|i: int, j: int| 0 <= i < u.len() && 0 <= j < u[i].len() implies #[trigger] u[i][j] != sep by {
                if i < n - 1 {
                    assert(u[i] == init[i]);
                } else if j < init.last().len() {
                    assert(u[i][j] == init[n - 1][j]);
                }
            }
        }
    }
}

/// The items kept from `pieces` are exactly the trimmed pieces that are not
/// blank: every such piece is kept, and nothing else is.
pub proof fn lemma_nonblank_trimmed_members(pieces: Seq<Seq<char>>)
    ensures
        forall|i: int|
            0 <= i < pieces.len() && trim(#[trigger] pieces[i]).len() > 0 ==> nonblank_trimmed(
                pieces,
            ).contains(trim(pieces[i])),
        forall|k: int|
            0 <= k < nonblank_trimmed(pieces).len() ==> exists|i: int|
                0 <= i < pieces.len() && #[trigger] nonblank_trimmed(pieces)[k] == trim(
                    #[trigger] pieces[i],
                ) && trim(pieces[i]).len() > 0,
    decreases pieces.len(),
{
    if pieces.len() > 0 {
        let init = pieces.drop_last();
        lemma_nonblank_trimmed_members(init);
        let h = nonblank_trimmed(init);
        let n = nonblank_trimmed(pieces);
        let t = trim(pieces.last());
        assert forall|i: int| 0 <= i < pieces.len() && trim(#[trigger] pieces[i]).len() > 0 implies n.contains(
            trim(pieces[i]),
        ) by {
            if i < init.len() {
                assert(init[i] == pieces[i]);
                let k = choose|k: int| 0 <= k < h.len() && h[k] == trim(init[i]);
                assert(n[k] == h[k]);
            } else {
                assert(n[n.len() - 1] == t);
            }
        }
        assert forall|k: int| 0 <= k < n.len() implies exists|i: int|
            0 <= i < pieces.len() && #[trigger] n[k] == trim(#[trigger] pieces[i]) && trim(
                pieces[i],
            ).len() > 0 by {
            if k < h.len() {
                assert(n[k] == h[k]);
                let i = choose|i: int| 0 <= i < init.len() && h[k] == trim(#[trigger] init[i]) && trim(init[i]).len() > 0;
                assert(pieces[i] == init[i]);
            } else {
                assert(n[k] == t);
                assert(pieces[pieces.len() - 1] == pieces.last());
            }
        }
    }
}

/// The pieces of `s` between the occurrences of `sep`.
pub fn split_chars(s: &Vec<char>, sep: char) -> (pieces: Vec<Vec<char>>)
    ensures
        pieces@.map_values(|p: Vec<char>| p@) == split_on(s@, sep),
{
    let mut done: Vec<Vec<char>> = Vec::new();
    let mut cur: Vec<char> = Vec::new();
    let mut i: usize = 0;
    while i < s.len()
        invariant
            i <= s.len(),
            done@.map_values(|p: Vec<char>| p@).push(cur@) == split_on(s@.take(i as int), sep),
        decreases s.len() - i,
    {
        let ghost prev = s@.take(i as int);
        let c = s[i];
        assert(s@.take(i + 1).drop_last() =~= prev);
        assert(s@.take(i + 1).last() == c);
        if c == sep {
            let piece = cur;
            done.push(piece);
            cur = Vec::new();
            assert(done@.map_values(|p: Vec<char>| p@).push(cur@) =~= split_on(prev, sep).push(
                Seq::<char>::empty(),
            ));
        } else {
            let ghost before = done@.map_values(|p: Vec<char>| p@);
            cur.push(c);
            assert(done@.map_values(|p: Vec<char>| p@).push(cur@) =~= split_on(prev, sep).update(
                split_on(prev, sep).len() - 1,
                split_on(prev, sep).last().push(c),
            ));
        }
        i = i + 1;
    }
    assert(s@.take(s.len() as int) =~= s@);
    let last = cur;
    done.push(last);
    assert(done@.map_values(|p: Vec<char>| p@) =~= split_on(s@, sep));
    done
}


/// The ASCII digit for `d`.
pub open spec fn digit_char(d: nat) -> char {
    ((d + 48) as u32) as char
}

/// The decimal notation of `n`, without sign or leading zeros, as `Display`
/// writes an unsigned integer.
pub open spec fn decimal(n: nat) -> Seq<char>
    decreases n,
{
    if n < 10 {
        seq![digit_char(n)]
    } else {
        decimal(n / 10).push(digit_char(n % 10))
    }
}

fn push_decimal(n: u128, out: &mut Vec<char>)
    ensures
        final(out)@ == old(out)@ + decimal(n as nat),
    decreases n,
{
    if n >= 10 {
        push_decimal(n / 10, out);
    }
    let d: u8 = (n % 10) as u8;
    out.push((d + 48) as char);
    assert(out@ =~= old(out)@ + decimal(n as nat));
}

/// The decimal notation of `n`.
pub fn decimal_chars(n: u128) -> (r: Vec<char>)
    ensures
        r@ == decimal(n as nat),
{
    let mut r: Vec<char> = Vec::new();
    push_decimal(n, &mut r);
    assert(r@ =~= decimal(n as nat));
    r
}

pub open spec fn is_ascii_digit(c: char) -> bool {
    '0' <= c <= '9'
}

/// The value of a string of ASCII digits, read in base ten.
pub open spec fn digits_value(s: Seq<char>) -> nat
    decreases s.len(),
{
    if s.len() == 0 {
        0
    } else {
        digits_value(s.drop_last()) * 10 + ((s.last() as u32) - 48) as nat
    }
}

/// The digits that an unsigned `FromStr` reads: a single leading `+` is allowed.
pub open spec fn unsigned_digits(s: Seq<char>) -> Seq<char> {
    if s.len() > 0 && s[0] == '+' {
        s.drop_first()
    } else {
        s
    }
}

/// What `str::parse` gives for an unsigned integer type whose largest value is
/// `max`: the value when `s` is an optional `+` and then at least one ASCII
/// digit, with nothing else (no white space), and the value fits; else nothing.
pub open spec fn parse_unsigned(s: Seq<char>, max: nat) -> Option<nat> {
    let d = unsigned_digits(s);
    if d.len() > 0 && (forall|i: int| 0 <= i < d.len() ==> is_ascii_digit(#[trigger] d[i]))
        && digits_value(d) <= max {
        Some(digits_value(d))
    } else {
        None
    }
}

proof fn lemma_digits_value_monotone(s: Seq<char>, k: int)
    requires
        0 <= k <= s.len(),
        forall|i: int| 0 <= i < s.len() ==> is_ascii_digit(#[trigger] s[i]),
    ensures
        digits_value(s.take(k)) <= digits_value(s),
    decreases s.len() - k,
{
    if k < s.len() {
        let t = s.drop_last();
        assert forall|i: int| 0 <= i < t.len() implies is_ascii_digit(#[trigger] t[i]) by {
            assert(t[i] == s[i]);
        }
        if k < t.len() {
            lemma_digits_value_monotone(t, k);
        } else {
            assert(t.take(k) =~= t);
        }
        assert(t.take(k) =~= s.take(k));
        assert(digits_value(t) <= digits_value(s));
    } else {
        assert(s.take(k) =~= s);
    }
}

/// Parses an unsigned decimal as `str::parse` does for a type whose largest value is `max`.
pub fn parse_unsigned_chars(s: &Vec<char>, max: u64) -> (r: Option<u64>)
    ensures
        match parse_unsigned(s@, max as nat) {
            Some(v) => r == Some(v as u64),
            None => r is None,
        },
{
    let ghost d = unsigned_digits(s@);
    let start: usize = if s.len() > 0 && s[0] == '+' {
        1
    } else {
        0
    };
    assert(d =~= s@.subrange(start as int, s.len() as int));
    if start >= s.len() {
        return None;
    }
    let mut value: u128 = 0;
    let mut i: usize = start;
    while i < s.len()
        invariant
            start <= i <= s.len(),
            start < s.len(),
            d == s@.subrange(start as int, s.len() as int),
            d == unsigned_digits(s@),
            forall|j: int| 0 <= j < i - start ==> is_ascii_digit(#[trigger] d[j]),
            value == digits_value(d.take(i - start)),
            value <= max,
        decreases s.len() - i,
    {
        let c = s[i];
        if !('0' <= c && c <= '9') {
            assert(d[i - start] == c);
            assert(!(forall|j: int| 0 <= j < d.len() ==> is_ascii_digit(#[trigger] d[j])));
            return None;
        }
        let digit: u128 = ((c as u32) - 48) as u128;
        assert(d.take(i + 1 - start).drop_last() =~= d.take(i - start));
        assert(d.take(i + 1 - start).last() == c);
        let next: u128 = value * 10 + digit;
        if next > max as u128 {
            proof {
                if forall|j: int| 0 <= j < d.len() ==> is_ascii_digit(#[trigger] d[j]) {
                    lemma_digits_value_monotone(d, i + 1 - start);
                }
            }
            return None;
        }
        value = next;
        i = i + 1;
    }
    assert(d.take(i - start) =~= d);
    Some(value as u64)
}


/// Whether `item` is one of the strings of `list`.
pub fn contains_text(list: &Vec<String>, item: &String) -> (found: bool)
    ensures
        found == texts(list@).contains(item@),
{
    let mut i: usize = 0;
    while i < list.len()
        invariant
            i <= list.len(),
            forall|j: int| 0 <= j < i ==> list@[j]@ != item@,
        decreases list.len() - i,
    {
        if list[i] == *item {
            assert(texts(list@)[i as int] == item@);
            return true;
        }
        i = i + 1;
    }
    assert forall|j: int| 0 <= j < texts(list@).len() implies texts(list@)[j] != item@ by {
        assert(texts(list@)[j] == list@[j]@);
    }
    false
}


/// `s` with every occurrence of `c` removed, as `str::replace(c, "")` gives it.
pub open spec fn without_char(s: Seq<char>, c: char) -> Seq<char>
    decreases s.len(),
{
    if s.len() == 0 {
        Seq::empty()
    } else if s.last() == c {
        without_char(s.drop_last(), c)
    } else {
        without_char(s.drop_last(), c).push(s.last())
    }
}

/// Appends the characters of `chars` to `s`.
pub fn push_chars(s: &mut String, chars: &Vec<char>)
    ensures
        final(s)@ == old(s)@ + chars@,
{
    let mut i: usize = 0;
    while i < chars.len()
        invariant
            i <= chars.len(),
            s@ == old(s)@ + chars@.take(i as int),
        decreases chars.len() - i,
    {
        s.push(chars[i]);
        assert(old(s)@ + chars@.take(i + 1) =~= (old(s)@ + chars@.take(i as int)).push(chars@[i as int]));
        i = i + 1;
    }
    assert(chars@.take(chars.len() as int) =~= chars@);
}

/// Appends the characters of `text` other than `c` to `s`.
pub fn push_without_char(s: &mut String, text: &str, c: char)
    ensures
        final(s)@ == old(s)@ + without_char(text@, c),
{
    let chars = chars_of(text);
    let mut i: usize = 0;
    while i < chars.len()
        invariant
            i <= chars.len(),
            chars@ == text@,
            s@ == old(s)@ + without_char(chars@.take(i as int), c),
        decreases chars.len() - i,
    {
        let ch = chars[i];
        assert(chars@.take(i + 1).drop_last() =~= chars@.take(i as int));
        if ch != c {
            s.push(ch);
            assert(s@ =~= old(s)@ + without_char(chars@.take(i + 1), c));
        }
        i = i + 1;
    }
    assert(chars@.take(chars.len() as int) =~= chars@);
}


/// The characters `v[start..end]`.
pub fn slice_chars(v: &Vec<char>, start: usize, end: usize) -> (r: Vec<char>)
    requires
        start <= end <= v.len(),
    ensures
        r@ == v@.subrange(start as int, end as int),
{
    let mut r: Vec<char> = Vec::new();
    let mut i = start;
    while i < end
        invariant
            start <= i <= end <= v.len(),
            r@ == v@.subrange(start as int, i as int),
        decreases end - i,
    {
        r.push(v[i]);
        assert(r@ =~= v@.subrange(start as int, i + 1));
        i = i + 1;
    }
    r
}

/// The trimmed text of `v`, as characters.
pub fn trim_chars(v: &Vec<char>) -> (r: Vec<char>)
    ensures
        r@ == trim(v@),
{
    let (start, end) = trim_bounds(v);
    slice_chars(v, start, end)
}

/// The string made of `chars`.
pub fn string_of(chars: &Vec<char>) -> (s: String)
    ensures
        s@ == chars@,
{
    let s = string_from_range(chars, 0, chars.len());
    assert(chars@.subrange(0, chars.len() as int) =~= chars@);
    s
}

/// The position of the first white-space character of `s`, or its length when there is none.
pub open spec fn first_white_space(s: Seq<char>) -> nat
    decreases s.len(),
{
    if s.len() == 0 {
        0
    } else if is_white_space(s[0]) {
        0
    } else {
        1 + first_white_space(s.drop_first())
    }
}

proof fn lemma_first_white_space_at(s: Seq<char>, k: int)
    requires
        0 <= k <= s.len(),
        forall|j: int| 0 <= j < k ==> !is_white_space(#[trigger] s[j]),
        k == s.len() || is_white_space(s[k]),
    ensures
        first_white_space(s) == k,
    decreases k,
{
    if k > 0 {
        let t = s.drop_first();
        assert forall|j: int| 0 <= j < k - 1 implies !is_white_space(#[trigger] t[j]) by {
            assert(t[j] == s[j + 1]);
        }
        if k < s.len() {
            assert(t[k - 1] == s[k]);
        }
        lemma_first_white_space_at(t, k - 1);
    }
}

/// The position of the first white-space character of `s`, or its length.
pub fn first_white_space_index(s: &Vec<char>) -> (k: usize)
    ensures
        k == first_white_space(s@),
        k <= s.len(),
{
    let mut k: usize = 0;
    while k < s.len() && !is_white_space_char(s[k])
        invariant
            k <= s.len(),
            forall|j: int| 0 <= j < k ==> !is_white_space(#[trigger] s@[j]),
        decreases s.len() - k,
    {
        k = k + 1;
    }
    proof {
        lemma_first_white_space_at(s@, k as int);
    }
    k
}

/// Whether two texts are equal when ASCII letters are compared without case,
/// as `str::eq_ignore_ascii_case` decides.
pub open spec fn eq_ignore_ascii_case(a: Seq<char>, b: Seq<char>) -> bool {
    ascii_lowercase(a) == ascii_lowercase(b)
}

pub fn chars_eq_ignore_ascii_case(a: &Vec<char>, b: &Vec<char>) -> (eq: bool)
    ensures
        eq == eq_ignore_ascii_case(a@, b@),
{
    let la = lowercase_chars(a);
    let lb = lowercase_chars(b);
    chars_equal(&la, &lb)
}

/// The trimmed pieces of `pieces` that are not empty, in order.
pub open spec fn nonblank_trimmed(pieces: Seq<Seq<char>>) -> Seq<Seq<char>>
    decreases pieces.len(),
{
    if pieces.len() == 0 {
        Seq::empty()
    } else {
        let init = nonblank_trimmed(pieces.drop_last());
        let t = trim(pieces.last());
        if t.len() > 0 {
            init.push(t)
        } else {
            init
        }
    }
}

pub proof fn lemma_nonblank_trimmed_not_empty(pieces: Seq<Seq<char>>)
    ensures
        forall|i: int|
            0 <= i < nonblank_trimmed(pieces).len() ==> #[trigger] nonblank_trimmed(pieces)[i].len()
                > 0,
    decreases pieces.len(),
{
    if pieces.len() > 0 {
        let init = nonblank_trimmed(pieces.drop_last());
        lemma_nonblank_trimmed_not_empty(pieces.drop_last());
        let n = nonblank_trimmed(pieces);
        assert forall|i: int| 0 <= i < n.len() implies #[trigger] n[i].len() > 0 by {
            if i < init.len() {
                assert(n[i] == init[i]);
            }
        }
    }
}

/// The trimmed, non-empty pieces of `pieces`, as strings.
pub fn nonblank_trimmed_strings(pieces: &Vec<Vec<char>>) -> (r: Vec<String>)
    ensures
        texts(r@) == nonblank_trimmed(pieces@.map_values(|p: Vec<char>| p@)),
{
    let ghost views = pieces@.map_values(|p: Vec<char>| p@);
    let mut r: Vec<String> = Vec::new();
    let mut i: usize = 0;
    while i < pieces.len()
        invariant
            i <= pieces.len(),
            views == pieces@.map_values(|p: Vec<char>| p@),
            texts(r@) == nonblank_trimmed(views.take(i as int)),
        decreases pieces.len() - i,
    {
        assert(views.take(i + 1).drop_last() =~= views.take(i as int));
        assert(views.take(i + 1).last() == pieces@[i as int]@);
        let t = trim_chars(&pieces[i]);
        if t.len() > 0 {
            let ghost before = texts(r@);
            r.push(string_of(&t));
            assert(texts(r@) =~= before.push(t@));
        }
        i = i + 1;
    }
    assert(views.take(pieces.len() as int) =~= views);
    r
}


/// `pattern` occurs in `s` at position `i`.
pub open spec fn occurs_at(s: Seq<char>, pattern: Seq<char>, i: int) -> bool {
    0 <= i && i + pattern.len() <= s.len() && s.subrange(i, i + pattern.len()) == pattern
}

/// `pattern` occurs somewhere in `s`, as `str::contains` decides.
pub open spec fn has_substring(s: Seq<char>, pattern: Seq<char>) -> bool {
    exists|i: int| occurs_at(s, pattern, i)
}

fn matches_at(s: &Vec<char>, pattern: &Vec<char>, i: usize) -> (m: bool)
    requires
        i + pattern.len() <= s.len(),
    ensures
        m == occurs_at(s@, pattern@, i as int),
{
    let mut j: usize = 0;
    while j < pattern.len()
        invariant
            j <= pattern.len(),
            i + pattern.len() <= s.len(),
            forall|k: int| 0 <= k < j ==> s@[i + k] == pattern@[k],
        decreases pattern.len() - j,
    {
        if s[i + j] != pattern[j] {
            assert(s@.subrange(i as int, i + pattern.len())[j as int] != pattern@[j as int]);
            return false;
        }
        j = j + 1;
    }
    assert(s@.subrange(i as int, i + pattern.len()) =~= pattern@);
    true
}

/// Whether `pattern` occurs in `s`.
pub fn contains_chars(s: &Vec<char>, pattern: &Vec<char>) -> (found: bool)
    ensures
        found == has_substring(s@, pattern@),
{
    if pattern.len() > s.len() {
        return false;
    }
    let last = s.len() - pattern.len();
    let mut i: usize = 0;
    while i < last
        invariant
            last + pattern.len() == s.len(),
            i <= last,
            forall|k: int| 0 <= k < i ==> !occurs_at(s@, pattern@, k),
        decreases last - i,
    {
        if matches_at(s, pattern, i) {
            return true;
        }
        i = i + 1;
    }
    if matches_at(s, pattern, last) {
        return true;
    }
    assert forall|k: int| !occurs_at(s@, pattern@, k) by {
        if 0 <= k < last {
        }
    }
    false
}

} // verus!
