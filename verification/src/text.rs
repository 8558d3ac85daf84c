use vstd::prelude::*;

verus! {

/// The characters of a string.
pub fn chars_of(s: &str) -> (r: Vec<char>)
    ensures
        r@ == s@,
{
    let n = s.unicode_len();
    let mut r: Vec<char> = Vec::new();
    let mut i: usize = 0;
    while i < n
        invariant
            i <= n,
            n == s@.len(),
            r@ == s@.take(i as int),
        decreases n - i,
    {
        r.push(s.get_char(i));
        assert(r@ =~= s@.take(i + 1));
        i = i + 1;
    }
    assert(s@.take(n as int) =~= s@);
    r
}

/// Whether two strings hold the same characters.
pub fn text_eq(a: &str, b: &str) -> (r: bool)
    ensures
        r == (a@ == b@),
{
    let n = a.unicode_len();
    if n != b.unicode_len() {
        return false;
    }
    let mut i: usize = 0;
    while i < n
        invariant
            i <= n,
            n == a@.len(),
            n == b@.len(),
            forall|k: int| 0 <= k < i ==> a@[k] == b@[k],
        decreases n - i,
    {
        if a.get_char(i) != b.get_char(i) {
            return false;
        }
        i = i + 1;
    }
    assert(a@ =~= b@);
    true
}

/// A separator `", "` starting at `i`.
pub open spec fn sep_at(s: Seq<char>, i: int) -> bool {
    0 <= i && i + 1 < s.len() && s[i] == ',' && s[i + 1] == ' '
}

/// The parts of `s` from `start` on, splitting at each `", "`; the search
/// for the next separator has reached `i`.
pub open spec fn split_from(s: Seq<char>, start: int, i: int) -> Seq<Seq<char>>
    decreases s.len() - i,
{
    if i >= s.len() {
        seq![s.subrange(start, s.len() as int)]
    } else if sep_at(s, i) {
        seq![s.subrange(start, i)] + split_from(s, i + 2, i + 2)
    } else {
        split_from(s, start, i + 1)
    }
}

/// The pieces of `s` between the separators `", "`, found from the left
/// without overlap, as `str::split` finds them.
pub open spec fn split_parts(s: Seq<char>) -> Seq<Seq<char>> {
    split_from(s, 0, 0)
}

/// Splits a string at each `", "`.
pub fn split_comma(s: &str) -> (parts: Vec<String>)
    ensures
        parts@.map_values(|p: String| p@) == split_parts(s@),
{
    let n = s.unicode_len();
    let c = chars_of(s);
    let mut parts: Vec<String> = Vec::new();
    let mut start: usize = 0;
    let mut i: usize = 0;
    while i < n
        invariant
            start <= i <= n,
            n == s@.len(),
            c@ == s@,
            parts@.map_values(|p: String| p@) + split_from(s@, start as int, i as int) == split_parts(
                s@,
            ),
        decreases n - i,
    {
        if i + 1 < n && c[i] == ',' && c[i + 1] == ' ' {
            let piece = String::from_str(s.substring_char(start, i));
            let ghost before = parts@.map_values(|p: String| p@);
            parts.push(piece);
            assert(parts@.map_values(|p: String| p@) =~= before.push(piece@));
            assert(before.push(piece@) + split_from(s@, i + 2, i + 2) =~= before + (seq![piece@]
                + split_from(s@, i + 2, i + 2)));
            start = i + 2;
            i = i + 2;
        } else {
            i = i + 1;
        }
    }
    let last = String::from_str(s.substring_char(start, n));
    let ghost before = parts@.map_values(|p: String| p@);
    parts.push(last);
    assert(parts@.map_values(|p: String| p@) =~= before + seq![last@]);
    parts
}

/// The characters of `s` other than `c`, in order.
pub open spec fn without_char(s: Seq<char>, c: char) -> Seq<char> {
    s.filter(other_than(c))
}

pub open spec fn other_than(c: char) -> spec_fn(char) -> bool {
    |x: char| x != c
}

/// The string with every `c` taken out, as `str::replace(c, "")` gives it.
pub fn remove_char(s: &str, c: char) -> (r: String)
    ensures
        r@ == without_char(s@, c),
{
    let n = s.unicode_len();
    let mut r = String::new();
    let mut i: usize = 0;
    let ghost keep = other_than(c);
    assert(s@.take(0) =~= Seq::<char>::empty());
    while i < n
        invariant
            i <= n,
            n == s@.len(),
            keep == other_than(c),
            r@ == s@.take(i as int).filter(keep),
        decreases n - i,
    {
        let x = s.get_char(i);
        proof {
            assert(s@.take(i + 1) =~= s@.take(i as int).push(x));
            s@.take(i as int).lemma_filter_push(x, keep);
        }
        if x != c {
            let one = s.substring_char(i, i + 1);
            assert(one@ =~= seq![x]);
            r.append(one);
            assert(r@ =~= s@.take(i as int).filter(keep).push(x));
        }
        i = i + 1;
    }
    assert(s@.take(n as int) =~= s@);
    r
}

/// Where an ability description's first line ends when the line is cut
/// back from `k` characters: back to just after a space, but not below 53
/// characters.
pub open spec fn description_cut(d: Seq<char>, k: int) -> int
    decreases k,
{
    if k < 53 {
        k
    } else if d[k - 1] != ' ' {
        description_cut(d, k - 1)
    } else {
        k
    }
}

/// An ability description as the picker shows it: one line if it has at
/// most sixty characters, else the first sixty cut back to the last space
/// within the last eight, and the rest on a second line.
pub open spec fn description_lines(d: Seq<char>) -> (Seq<char>, Seq<char>) {
    if d.len() > 60 {
        let c = description_cut(d, 60);
        (d.take(c), d.skip(c))
    } else {
        (d, Seq::empty())
    }
}

proof fn lemma_description_cut_bounds(d: Seq<char>, k: int)
    requires
        52 <= k <= d.len(),
    ensures
        52 <= description_cut(d, k) <= k,
    decreases k,
{
    if k >= 53 && d[k - 1] != ' ' {
        lemma_description_cut_bounds(d, k - 1);
    }
}

/// Splits an ability description into the two lines the picker shows (see
/// `description_lines`).
pub fn split_description(desc: &str) -> (lines: (String, String))
    ensures
        (lines.0@, lines.1@) == description_lines(desc@),
{
    let n = desc.unicode_len();
    if n > 60 {
        let mut k: usize = 60;
        while k >= 53 && desc.get_char(k - 1) != ' '
            invariant
                52 <= k <= 60,
                n == desc@.len(),
                n > 60,
                description_cut(desc@, k as int) == description_cut(desc@, 60),
            decreases k,
        {
            k = k - 1;
        }
        let one = String::from_str(desc.substring_char(0, k));
        let two = String::from_str(desc.substring_char(k, n));
        assert(one@ =~= desc@.take(k as int));
        assert(two@ =~= desc@.skip(k as int));
        (one, two)
    } else {
        (String::from_str(desc), String::new())
    }
}

/// Where a help text's line ends when cut back from `k` characters: just
/// after the last space among them, or nothing when there is none.
pub open spec fn space_cut(rem: Seq<char>, k: int) -> int
    decreases k,
{
    if k <= 0 {
        0
    } else if rem[k - 1] == ' ' {
        k
    } else {
        space_cut(rem, k - 1)
    }
}

/// The length of the next line of a help text: up to its last space within
/// fifty characters.
pub open spec fn help_cut(rem: Seq<char>) -> int {
    space_cut(rem, if rem.len() < 50 { rem.len() as int } else { 50 })
}

/// The lines of a help text from the `i`-th on: each line is cut (see
/// `help_cut`) until the rest has at most fifty characters, and the rest,
/// possibly empty, is the last line; after thirty lines the rest is the last
/// line whatever its length.
pub open spec fn help_lines(rem: Seq<char>, i: int) -> Seq<Seq<char>>
    decreases 30 - i,
{
    if i >= 30 {
        seq![rem]
    } else {
        let k = help_cut(rem);
        let rest = rem.skip(k);
        if rest.len() <= 50 || k == 0 {
            seq![rem.take(k), rest]
        } else {
            seq![rem.take(k)] + help_lines(rest, i + 1)
        }
    }
}

/// Whether each line the wrapping cuts has a space to end at; the wrapping
/// takes characters off a line until it ends in a space, and runs off the
/// start of a line that has none.
pub open spec fn help_wraps(rem: Seq<char>, i: int) -> bool
    decreases 30 - i,
{
    if i >= 30 {
        true
    } else {
        let k = help_cut(rem);
        k > 0 && (rem.skip(k).len() <= 50 || help_wraps(rem.skip(k), i + 1))
    }
}

proof fn lemma_space_cut_bounds(rem: Seq<char>, k: int)
    requires
        k <= rem.len(),
    ensures
        0 <= space_cut(rem, k) <= (if k < 0 { 0 } else { k }),
        space_cut(rem, k) > 0 ==> rem[space_cut(rem, k) - 1] == ' ',
    decreases k,
{
    if k > 0 && rem[k - 1] != ' ' {
        lemma_space_cut_bounds(rem, k - 1);
    }
}

fn next_cut(rem: &Vec<char>, from: usize) -> (k: usize)
    requires
        from <= rem@.len(),
    ensures
        k == help_cut(rem@.skip(from as int)),
        k <= 50,
        from + k <= rem@.len(),
{
    let ghost r = rem@.skip(from as int);
    let avail = rem.len() - from;
    let k0: usize = if avail < 50 {
        avail
    } else {
        50
    };
    let mut pos: usize = from + k0;
    proof {
        lemma_space_cut_bounds(r, k0 as int);
    }
    while pos > from && rem[pos - 1] != ' '
        invariant
            from <= pos <= from + 50,
            pos <= rem@.len(),
            r == rem@.skip(from as int),
            space_cut(r, pos - from) == help_cut(r),
        decreases pos,
    {
        assert(r[pos - from - 1] == rem@[pos - 1]);
        pos = pos - 1;
    }
    if pos > from {
        assert(r[pos - from - 1] == rem@[pos - 1]);
    }
    pos - from
}

fn text_of(c: &Vec<char>, from: usize, to: usize, s: &str) -> (t: String)
    requires
        from <= to <= c@.len(),
        c@ == s@,
    ensures
        t@ == c@.subrange(from as int, to as int),
{
    String::from_str(s.substring_char(from, to))
}

/// Whether a help text can be wrapped (see `help_wraps`).
pub fn help_text_wraps(txt: &str) -> (ok: bool)
    ensures
        ok == help_wraps(txt@, 0),
{
    let c = chars_of(txt);
    let mut from: usize = 0;
    let mut i: usize = 0;
    assert(c@.skip(0) =~= c@);
    while i < 30
        invariant
            i <= 30,
            from <= c@.len(),
            c@ == txt@,
            help_wraps(txt@, 0) == help_wraps(c@.skip(from as int), i as int),
        decreases 30 - i,
    {
        let k = next_cut(&c, from);
        if k == 0 {
            return false;
        }
        assert(c@.skip(from as int).skip(k as int) =~= c@.skip(from + k));
        if c.len() - (from + k) <= 50 {
            return true;
        }
        from = from + k;
        i = i + 1;
    }
    true
}

/// Wraps a help text into the lines its tooltip shows (see `help_lines`).
pub fn wrap_help_text(txt: &str) -> (lines: Vec<String>)
    requires
        help_wraps(txt@, 0),
    ensures
        lines@.map_values(|l: String| l@) == help_lines(txt@, 0),
{
    let c = chars_of(txt);
    let mut lines: Vec<String> = Vec::new();
    let mut from: usize = 0;
    let mut i: usize = 0;
    let mut done = false;
    assert(c@.skip(0) =~= c@);
    while i < 30 && !done
        invariant
            i <= 30,
            from <= c@.len(),
            c@ == txt@,
            !done ==> help_wraps(c@.skip(from as int), i as int),
            !done ==> lines@.map_values(|l: String| l@) + help_lines(c@.skip(from as int), i as int)
                == help_lines(txt@, 0),
            done ==> lines@.map_values(|l: String| l@) == help_lines(txt@, 0),
        decreases 31 - i - (if done { 1int } else { 0int }),
    {
        let ghost r = c@.skip(from as int);
        let k = next_cut(&c, from);
        let total = c.len();
        assert(from + k <= total);
        let to: usize = from + k;
        let line = text_of(&c, from, to, txt);
        let ghost before = lines@.map_values(|l: String| l@);
        assert(line@ =~= r.take(k as int));
        assert(r.skip(k as int) =~= c@.skip(from + k));
        lines.push(line);
        assert(lines@.map_values(|l: String| l@) =~= before.push(line@));
        if c.len() - (from + k) <= 50 {
            let rest = text_of(&c, from + k, c.len(), txt);
            assert(rest@ =~= r.skip(k as int));
            let ghost mid = lines@.map_values(|l: String| l@);
            lines.push(rest);
            assert(lines@.map_values(|l: String| l@) =~= mid.push(rest@));
            assert(before + help_lines(r, i as int) =~= lines@.map_values(|l: String| l@));
            done = true;
        } else {
            assert(before + help_lines(r, i as int) =~= before.push(line@) + help_lines(
                c@.skip(from + k),
                i + 1,
            ));
            from = from + k;
            i = i + 1;
        }
    }
    if !done {
        let rest = text_of(&c, from, c.len(), txt);
        assert(rest@ =~= c@.skip(from as int));
        let ghost before = lines@.map_values(|l: String| l@);
        lines.push(rest);
        assert(lines@.map_values(|l: String| l@) =~= before.push(rest@));
    }
    lines
}

} // verus!
