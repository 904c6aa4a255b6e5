//! Building text: decimal numbers and joined lists.

use vstd::prelude::*;

verus! {

/// The character of one decimal digit.
pub open spec fn digit_char(digit: nat) -> char {
    (48 + digit) as char
}

/// The decimal notation of `n`, without leading zeros.
pub open spec fn decimal(n: nat) -> Seq<char>
    decreases n,
{
    if n < 10 {
        seq![digit_char(n)]
    } else {
        decimal(n / 10).push(digit_char(n % 10))
    }
}

/// `parts` one after the other, with `separator` between neighbours.
pub open spec fn joined(parts: Seq<Seq<char>>, separator: Seq<char>) -> Seq<char>
    decreases parts.len(),
{
    if parts.len() == 0 {
        Seq::empty()
    } else {
        let head = joined(parts.drop_last(), separator);
        (if parts.len() > 1 {
            head + separator
        } else {
            head
        }) + parts.last()
    }
}

/// What each string of a list holds.
pub open spec fn contents(parts: Seq<String>) -> Seq<Seq<char>> {
    Seq::new(parts.len(), |i: int| parts[i]@)
}

/// The decimal notation of each port of a list.
pub open spec fn port_numerals(ports: Seq<u16>) -> Seq<Seq<char>> {
    Seq::new(ports.len(), |i: int| decimal(ports[i] as nat))
}

/// The text of a list of ports: decimal, comma separated, no spaces.
pub open spec fn port_list(ports: Seq<u16>) -> Seq<char> {
    joined(port_numerals(ports), ","@)
}

/// Whether a character may stand in a list of ports.
pub open spec fn is_list_char(c: char) -> bool {
    c == ',' || '0' <= c <= '9'
}

proof fn lemma_decimal_characters(n: nat)
    ensures
        decimal(n).len() > 0,
        forall|i: int| 0 <= i < decimal(n).len() ==> is_list_char(#[trigger] decimal(n)[i]),
    decreases n,
{
    if n >= 10 {
        lemma_decimal_characters(n / 10);
    }
}

proof fn lemma_joined_characters(parts: Seq<Seq<char>>)
    requires
        forall|k: int, i: int|
            0 <= k < parts.len() && 0 <= i < parts[k].len() ==> is_list_char(
                #[trigger] parts[k][i],
            ),
    ensures
        forall|i: int|
            0 <= i < joined(parts, ","@).len() ==> is_list_char(#[trigger] joined(parts, ","@)[i]),
    decreases parts.len(),
{
    reveal_strlit(",");
    if parts.len() > 0 {
        let rest = parts.drop_last();
        assert forall|k: int, i: int| 0 <= k < rest.len() && 0 <= i < rest[k].len() implies (
        is_list_char(#[trigger] rest[k][i])) by {
            assert(is_list_char(parts[k][i]));
        }
        lemma_joined_characters(rest);
        let head = joined(rest, ","@);
        let last = parts[parts.len() - 1];
        let whole = joined(parts, ","@);
        assert(whole == (if parts.len() > 1 {
            head + ","@
        } else {
            head
        }) + last);
        assert forall|i: int| 0 <= i < whole.len() implies is_list_char(#[trigger] whole[i]) by {
            let before = whole.len() - last.len();
            if i >= before {
                assert(whole[i] == last[i - before]);
                assert(is_list_char(parts[parts.len() - 1][i - before]));
            } else if i < head.len() {
                assert(whole[i] == head[i]);
            }
        }
    }
}

/// A list of ports holds digits and commas, and so no spaces.
pub proof fn lemma_port_list_characters(ports: Seq<u16>)
    ensures
        forall|i: int|
            0 <= i < port_list(ports).len() ==> is_list_char(#[trigger] port_list(ports)[i]),
{
    let parts = port_numerals(ports);
    assert forall|k: int, i: int| 0 <= k < parts.len() && 0 <= i < parts[k].len() implies (
    is_list_char(#[trigger] parts[k][i])) by {
        lemma_decimal_characters(ports[k] as nat);
    }
    lemma_joined_characters(parts);
}

/// Appends one decimal digit.
fn push_digit(out: &mut String, digit: u8)
    requires
        digit < 10,
    ensures
        final(out)@ == old(out)@.push(digit_char(digit as nat)),
{
    proof {
        reveal_strlit("0");
        reveal_strlit("1");
        reveal_strlit("2");
        reveal_strlit("3");
        reveal_strlit("4");
        reveal_strlit("5");
        reveal_strlit("6");
        reveal_strlit("7");
        reveal_strlit("8");
        reveal_strlit("9");
    }
    let numeral: &str = match digit {
        0 => "0",
        1 => "1",
        2 => "2",
        3 => "3",
        4 => "4",
        5 => "5",
        6 => "6",
        7 => "7",
        8 => "8",
        _ => "9",
    };
    assert(numeral@ =~= seq![digit_char(digit as nat)]);
    out.append(numeral);
    assert(out@ =~= old(out)@.push(digit_char(digit as nat)));
}

/// Appends the decimal notation of `n`.
pub fn push_decimal(out: &mut String, n: u128)
    ensures
        final(out)@ == old(out)@ + decimal(n as nat),
    decreases n,
{
    if n >= 10 {
        push_decimal(out, n / 10);
    }
    push_digit(out, (n % 10) as u8);
    assert(out@ =~= old(out)@ + decimal(n as nat));
}

/// Joins strings with a separator between neighbours.
pub fn join_strings(parts: &Vec<String>, separator: &str) -> (text: String)
    ensures
        text@ == joined(contents(parts@), separator@),
{
    let mut text = String::new();
    let mut i: usize = 0;
    let ghost all = contents(parts@);
    while i < parts.len()
        invariant
            i <= parts.len(),
            all == contents(parts@),
            text@ == joined(all.take(i as int), separator@),
        decreases parts.len() - i,
    {
        if i > 0 {
            text.append(separator);
        }
        text.append(parts[i].as_str());
        assert(all.take(i + 1).drop_last() =~= all.take(i as int));
        assert(text@ =~= joined(all.take(i + 1), separator@));
        i += 1;
    }
    assert(all.take(i as int) =~= all);
    text
}

/// The comma separated list of `ports`, in the given order.
pub fn join_ports(ports: &Vec<u16>) -> (text: String)
    ensures
        text@ == port_list(ports@),
{
    let mut text = String::new();
    let mut i: usize = 0;
    let ghost all = port_numerals(ports@);
    while i < ports.len()
        invariant
            i <= ports.len(),
            all == port_numerals(ports@),
            text@ == joined(all.take(i as int), ","@),
        decreases ports.len() - i,
    {
        if i > 0 {
            text.append(",");
        }
        push_decimal(&mut text, ports[i] as u128);
        assert(all.take(i + 1).drop_last() =~= all.take(i as int));
        assert(text@ =~= joined(all.take(i + 1), ","@));
        i += 1;
    }
    assert(all.take(i as int) =~= all);
    text
}

/// The number that a text of decimal digits denotes.
pub open spec fn number_read(digits: Seq<char>) -> int
    decreases digits.len(),
{
    if digits.len() == 0 {
        0
    } else {
        10 * number_read(digits.drop_last()) + (digits.last() as int - '0' as int)
    }
}

/// Whether a text is a decimal number: digits, and no needless zero in front.
pub open spec fn is_numeral(text: Seq<char>) -> bool {
    &&& text.len() > 0
    &&& forall|i: int| 0 <= i < text.len() ==> '0' <= #[trigger] text[i] <= '9'
    &&& text.len() > 1 ==> text[0] != '0'
}

/// The parts of a text between the places where `separator` stands.
pub open spec fn pieces(text: Seq<char>, separator: char) -> Seq<Seq<char>>
    decreases text.len(),
{
    if text.len() == 0 {
        seq![Seq::empty()]
    } else {
        let before = pieces(text.drop_last(), separator);
        if text.last() == separator {
            before.push(Seq::empty())
        } else {
            before.drop_last().push(before.last().push(text.last()))
        }
    }
}

/// A number that was written in decimal is read back from what was written.
pub proof fn lemma_decimal_reads_back(n: nat)
    ensures
        is_numeral(decimal(n)),
        number_read(decimal(n)) == n,
        n > 0 ==> decimal(n)[0] != '0',
    decreases n,
{
    if n < 10 {
        assert(decimal(n).drop_last() =~= Seq::empty());
        reveal_with_fuel(number_read, 2);
    } else {
        let front = decimal(n / 10);
        lemma_decimal_reads_back(n / 10);
        assert(decimal(n) == front.push(digit_char(n % 10)));
        assert(decimal(n).drop_last() =~= front);
        assert(decimal(n)[0] == front[0]);
        assert forall|i: int| 0 <= i < decimal(n).len() implies '0' <= #[trigger] decimal(n)[i]
            <= '9' by {
            if i < front.len() {
                assert(decimal(n)[i] == front[i]);
            }
        }
    }
}

/// What the strings of a list hold is listed one for one.
pub proof fn lemma_contents(parts: Seq<String>)
    ensures
        contents(parts).len() == parts.len(),
        forall|i: int| 0 <= i < parts.len() ==> #[trigger] contents(parts)[i] == parts[i]@,
{
}

/// Joining: nothing gives nothing, one part gives that part, and one more part
/// comes behind the separator.
pub proof fn lemma_joined_grows(parts: Seq<Seq<char>>, separator: Seq<char>, part: Seq<char>)
    ensures
        joined(Seq::empty(), separator) == Seq::<char>::empty(),
        joined(seq![part], separator) == part,
        parts.len() > 0 ==> joined(parts.push(part), separator) == joined(parts, separator)
            + separator + part,
{
    reveal_with_fuel(joined, 2);
    assert(seq![part].drop_last() =~= Seq::empty());
    assert(joined(seq![part], separator) =~= part);
    assert(parts.push(part).drop_last() =~= parts);
}

/// How two calls of `join_strings` relate whose lists differ by one string at
/// the end: that string is what the longer text has more, behind a separator.
pub proof fn lemma_join_strings_grows(
    few: Vec<String>,
    more: Vec<String>,
    separator: &str,
    short: String,
    long: String,
)
    requires
        call_ensures(join_strings, (&few, separator), short),
        call_ensures(join_strings, (&more, separator), long),
        more@.len() == few@.len() + 1,
        forall|i: int| 0 <= i < few@.len() ==> (#[trigger] few@[i])@ == more@[i]@,
    ensures
        few@.len() == 0 ==> short@ == Seq::<char>::empty() && long@ == more@[0]@,
        few@.len() > 0 ==> long@ == short@ + separator@ + more@[few@.len() as int]@,
{
    let last = more@[few@.len() as int]@;
    lemma_joined_grows(contents(few@), separator@, last);
    if few@.len() == 0 {
        assert(contents(few@) =~= Seq::empty());
        assert(contents(more@) =~= seq![last]);
    } else {
        assert(contents(more@) =~= contents(few@).push(last));
    }
}

proof fn lemma_pieces_exist(text: Seq<char>, separator: char)
    ensures
        pieces(text, separator).len() > 0,
    decreases text.len(),
{
    if text.len() > 0 {
        lemma_pieces_exist(text.drop_last(), separator);
    }
}

/// Text without a separator extends the last piece.
proof fn lemma_pieces_extend(text: Seq<char>, separator: char, more: Seq<char>)
    requires
        forall|i: int| 0 <= i < more.len() ==> #[trigger] more[i] != separator,
    ensures
        pieces(text + more, separator) == pieces(text, separator).drop_last().push(
            pieces(text, separator).last() + more,
        ),
    decreases more.len(),
{
    let own = pieces(text, separator);
    lemma_pieces_exist(text, separator);
    if more.len() == 0 {
        assert(text + more =~= text);
        assert(own.last() + more =~= own.last());
        assert(own.drop_last().push(own.last()) =~= own);
    } else {
        let fewer = more.drop_last();
        assert forall|i: int| 0 <= i < fewer.len() implies #[trigger] fewer[i] != separator by {
            assert(fewer[i] == more[i]);
        }
        lemma_pieces_extend(text, separator, fewer);
        assert((text + more).drop_last() =~= text + fewer);
        assert((text + more).last() == more[more.len() - 1]);
        let before = own.drop_last().push(own.last() + fewer);
        assert(before.drop_last() =~= own.drop_last());
        assert((own.last() + fewer).push(more.last()) =~= own.last() + more);
    }
}

/// A list of ports can be read back: between the commas stand as many numbers
/// as there are ports, and the numbers are the ports, in their order.
pub proof fn lemma_port_list_reads_back(ports: Seq<u16>)
    ensures
        ports.len() == 0 ==> port_list(ports) == Seq::<char>::empty(),
        ports.len() > 0 ==> pieces(port_list(ports), ',').len() == ports.len(),
        ports.len() > 0 ==> forall|i: int|
            0 <= i < ports.len() ==> {
                let piece = #[trigger] pieces(port_list(ports), ',')[i];
                is_numeral(piece) && number_read(piece) == ports[i]
            },
    decreases ports.len(),
{
    reveal_strlit(",");
    let parts = port_numerals(ports);
    if ports.len() > 0 {
        let rest = ports.drop_last();
        let last = decimal(ports.last() as nat);
        lemma_port_list_reads_back(rest);
        lemma_decimal_reads_back(ports.last() as nat);
        assert(parts =~= port_numerals(rest).push(last));
        lemma_joined_grows(port_numerals(rest), ","@, last);
        assert forall|i: int| 0 <= i < last.len() implies #[trigger] last[i] != ',' by {}
        if rest.len() == 0 {
            assert(parts =~= seq![last]);
            assert(port_list(ports) == last);
            let none = Seq::<char>::empty();
            lemma_pieces_extend(none, ',', last);
            assert(none + last =~= last);
            assert(pieces(none, ',') =~= seq![none]);
            assert(pieces(last, ',') =~= seq![last]);
        } else {
            let front = port_list(rest) + ","@;
            assert(port_list(ports) == front + last);
            assert(front.drop_last() =~= port_list(rest));
            assert(front.last() == ',');
            let before = pieces(port_list(rest), ',');
            assert(pieces(front, ',') == before.push(Seq::empty()));
            lemma_pieces_extend(front, ',', last);
            assert(Seq::<char>::empty() + last =~= last);
            assert(before.push(Seq::empty()).drop_last() =~= before);
            assert(pieces(port_list(ports), ',') =~= before.push(last));
            assert forall|i: int| 0 <= i < ports.len() implies {
                let piece = #[trigger] pieces(port_list(ports), ',')[i];
                is_numeral(piece) && number_read(piece) == ports[i]
            } by {
                if i < rest.len() {
                    assert(pieces(port_list(ports), ',')[i] == before[i]);
                    assert(rest[i] == ports[i]);
                }
            }
        }
    }
}

/// What `join_ports` returns can be read back as the ports that it was given.
pub proof fn lemma_join_ports_reads_back(ports: Vec<u16>, text: String)
    requires
        call_ensures(join_ports, (&ports,), text),
    ensures
        ports@.len() == 0 ==> text@ == Seq::<char>::empty(),
        ports@.len() > 0 ==> pieces(text@, ',').len() == ports@.len(),
        ports@.len() > 0 ==> forall|i: int|
            0 <= i < ports@.len() ==> {
                let piece = #[trigger] pieces(text@, ',')[i];
                is_numeral(piece) && number_read(piece) == ports@[i]
            },
{
    lemma_port_list_reads_back(ports@);
}

} // verus!
