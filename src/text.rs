use vstd::prelude::*;

verus! {

/// The ASCII digit of `d`, for `d < 10`.
pub open spec fn digit_char(d: nat) -> char {
    if d == 0 { '0' }
    else if d == 1 { '1' }
    else if d == 2 { '2' }
    else if d == 3 { '3' }
    else if d == 4 { '4' }
    else if d == 5 { '5' }
    else if d == 6 { '6' }
    else if d == 7 { '7' }
    else if d == 8 { '8' }
    else { '9' }
}

/// The decimal digits of `n`, most significant first, without leading zeros.
pub open spec fn decimal_of(n: nat) -> Seq<char>
    decreases n,
{
    if n < 10 {
        seq![digit_char(n)]
    } else {
        decimal_of(n / 10).push(digit_char(n % 10))
    }
}

/// A mention of user `id`: `<@id>`.
pub open spec fn mention_of(id: nat) -> Seq<char> {
    seq!['<', '@'] + decimal_of(id) + seq!['>']
}

/// One line of a todo listing: `position: note`.
pub open spec fn list_line(position: nat, note: Seq<char>) -> Seq<char> {
    decimal_of(position) + seq![':', ' '] + note
}

/// The lines of a listing of `notes`, numbered from 1.
pub open spec fn list_lines(notes: Seq<Seq<char>>) -> Seq<Seq<char>> {
    Seq::new(notes.len(), |x: int| list_line((x + 1) as nat, notes[x]))
}

/// `lines` joined by line breaks.
pub open spec fn joined(lines: Seq<Seq<char>>) -> Seq<char>
    decreases lines.len(),
{
    if lines.len() == 0 {
        Seq::empty()
    } else if lines.len() == 1 {
        lines[0]
    } else {
        joined(lines.drop_last()) + seq!['\n'] + lines.last()
    }
}

/// The notice that `author` pinged `target`.
pub open spec fn ping_notice_of(author: nat, target: nat) -> Seq<char> {
    mention_of(author) + seq![' ', 'p', 'i', 'n', 'g', 'e', 'd', ':', ' '] + mention_of(target)
}

fn digit_str(d: u64) -> (r: &'static str)
    requires
        d < 10,
    ensures
        r@ == seq![digit_char(d as nat)],
{
    if d == 0 {
        proof { reveal_strlit("0"); }
        "0"
    } else if d == 1 {
        proof { reveal_strlit("1"); }
        "1"
    } else if d == 2 {
        proof { reveal_strlit("2"); }
        "2"
    } else if d == 3 {
        proof { reveal_strlit("3"); }
        "3"
    } else if d == 4 {
        proof { reveal_strlit("4"); }
        "4"
    } else if d == 5 {
        proof { reveal_strlit("5"); }
        "5"
    } else if d == 6 {
        proof { reveal_strlit("6"); }
        "6"
    } else if d == 7 {
        proof { reveal_strlit("7"); }
        "7"
    } else if d == 8 {
        proof { reveal_strlit("8"); }
        "8"
    } else {
        proof { reveal_strlit("9"); }
        "9"
    }
}

/// The decimal form of `n`.
pub fn decimal(n: u64) -> (r: String)
    ensures
        r@ == decimal_of(n as nat),
    decreases n,
{
    if n < 10 {
        String::from_str(digit_str(n))
    } else {
        let mut s = decimal(n / 10);
        s.append(digit_str(n % 10));
        s
    }
}

/// A mention of user `id`, as the chat platform writes it.
pub fn mention(id: u64) -> (r: String)
    ensures
        r@ == mention_of(id as nat),
{
    proof {
        reveal_strlit("<@");
        reveal_strlit(">");
    }
    let mut s = String::from_str("<@");
    let d = decimal(id);
    s.append(d.as_str());
    s.append(">");
    s
}

/// The line `position: note` of a listing.
pub fn format_line(position: u64, note: &str) -> (r: String)
    ensures
        r@ == list_line(position as nat, note@),
{
    proof {
        reveal_strlit(": ");
    }
    let mut s = decimal(position);
    s.append(": ");
    s.append(note);
    s
}

/// Numbers `notes` from 1, one line each.
pub fn format_list(notes: &Vec<String>) -> (r: Vec<String>)
    ensures
        r@.map_values(|s: String| s@) == list_lines(notes@.map_values(|s: String| s@)),
{
    let mut r: Vec<String> = Vec::new();
    let mut i: usize = 0;
    while i < notes.len()
        invariant
            i <= notes@.len(),
            r@.len() == i,
            forall|x: int|
                0 <= x < i ==> #[trigger] r@[x]@ == list_line((x + 1) as nat, notes@[x]@),
        decreases notes@.len() - i,
    {
        let pos: usize = i + 1;
        let line = format_line(pos as u64, notes[i].as_str());
        r.push(line);
        i = i + 1;
    }
    assert(r@.map_values(|s: String| s@) =~= list_lines(notes@.map_values(|s: String| s@)));
    r
}

/// The notice posted to the log channel when `author` pings `target`.
pub fn ping_notice(author: u64, target: u64) -> (r: String)
    ensures
        r@ == ping_notice_of(author as nat, target as nat),
{
    proof {
        reveal_strlit(" pinged: ");
    }
    let mut s = mention(author);
    s.append(" pinged: ");
    let t = mention(target);
    s.append(t.as_str());
    s
}

/// Joins `lines` with line breaks.
pub fn join_lines(lines: &Vec<String>) -> (r: String)
    ensures
        r@ == joined(lines@.map_values(|s: String| s@)),
{
    let mut r = String::new();
    let mut i: usize = 0;
    let ghost ls = lines@.map_values(|s: String| s@);
    while i < lines.len()
        invariant
            ls == lines@.map_values(|s: String| s@),
            i <= lines@.len(),
            r@ == joined(ls.subrange(0, i as int)),
        decreases lines@.len() - i,
    {
        proof {
            assert(ls.subrange(0, i + 1).drop_last() =~= ls.subrange(0, i as int));
        }
        let ghost r_start = r@;
        if i > 0 {
            proof {
                reveal_strlit("\n");
            }
            r.append("\n");
        }
        let ghost r0 = r@;
        r.append(lines[i].as_str());
        proof {
            let sub = ls.subrange(0, i + 1);
            assert(lines@[i as int]@ == ls[i as int]);
            assert(sub.last() == ls[i as int]);
            if i == 0 {
                assert(r@ =~= ls[0]);
                assert(sub[0] == ls[0]);
            } else {
                assert(r0 =~= r_start + seq!['\n']);
                assert(r@ =~= r0 + ls[i as int]);
                assert(r@ =~= joined(sub.drop_last()) + seq!['\n'] + sub.last());
            }
        }
        i = i + 1;
    }
    assert(ls.subrange(0, i as int) =~= ls);
    r
}

/// Whether `a` and `b` hold the same characters.
pub fn same_text(a: &str, b: &str) -> (r: bool)
    ensures
        r == (a@ == b@),
{
    let n = a.unicode_len();
    if n != b.unicode_len() {
        return false;
    }
    let mut i: usize = 0;
    while i < n
        invariant
            n == a@.len() == b@.len(),
            i <= n,
            forall|x: int| 0 <= x < i ==> a@[x] == b@[x],
        decreases n - i,
    {
        if a.get_char(i) != b.get_char(i) {
            return false;
        }
        i = i + 1;
    }
    assert(a@ =~= b@);
    true
}

} // verus!
