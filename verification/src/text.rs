//! Text that the tool writes: decimal numbers, file names and paths, and the
//! line shown for a dialogue.

use vstd::prelude::*;

verus! {

/// The character of one decimal digit.
pub open spec fn digit_char(d: nat) -> char {
    (48 + d) as char
}

/// The decimal digits of a natural number, most significant first.
pub open spec fn digits(n: nat) -> Seq<char>
    decreases n,
{
    if n < 10 {
        seq![digit_char(n)]
    } else {
        digits(n / 10).push(digit_char(n % 10))
    }
}

/// The decimal form of an integer, with a leading minus sign if it is negative.
pub open spec fn decimal(n: int) -> Seq<char> {
    if n < 0 {
        seq!['-'] + digits((-n) as nat)
    } else {
        digits(n as nat)
    }
}

fn digit_str(d: u64) -> (s: &'static str)
    requires
        d < 10,
    ensures
        s@ == seq![digit_char(d as nat)],
{
    proof {
        reveal_strlit("0");
        reveal_strlit("1");
        reveal_strlit("2");
        reveal_strlit("3");
        reveal_strlit("4");
        reveal_strlit("5");
        reveal_strlit("6");
        reveal_strlit("7");
        reveal_strlit("8");
        reveal_strlit("9");
    }
    match d {
        0 => "0",
        1 => "1",
        2 => "2",
        3 => "3",
        4 => "4",
        5 => "5",
        6 => "6",
        7 => "7",
        8 => "8",
        _ => "9",
    }
}

fn push_digits(out: &mut String, n: u64)
    ensures
        final(out)@ == old(out)@ + digits(n as nat),
    decreases n,
{
    if n < 10 {
        out.append(digit_str(n));
    } else {
        push_digits(out, n / 10);
        out.append(digit_str(n % 10));
    }
    assert(out@ =~= old(out)@ + digits(n as nat));
}

/// Appends the decimal form of `n` to `out`.
pub fn push_decimal(out: &mut String, n: i64)
    ensures
        final(out)@ == old(out)@ + decimal(n as int),
{
    if n < 0 {
        proof {
            reveal_strlit("-");
        }
        out.append("-");
        let magnitude: u64 = (-(n + 1)) as u64 + 1;
        push_digits(out, magnitude);
        assert(out@ =~= old(out)@ + decimal(n as int));
    } else {
        push_digits(out, n as u64);
    }
}

/// Whether two texts are the same.
pub fn same_text(a: &String, b: &str) -> (r: bool)
    ensures
        r == (a@ == b@),
{
    *a == b.to_owned()
}

/// The characters that no file name may hold on some file system.
pub open spec fn is_reserved(c: char) -> bool {
    c == '\\' || c == '/' || c == ':' || c == '*' || c == '?' || c == '"' || c == '>' || c == '<'
        || c == '|'
}

/// A file name without the characters that are reserved.
pub open spec fn sanitized(name: Seq<char>) -> Seq<char> {
    name.filter(|c: char| !is_reserved(c))
}

/// Matches one reserved character.
pub const RESERVED_PATTERN: &'static str = "(\\\\|\\/|:|\\*|\\?|\"|>|<|\\|)";

/// `regex::Regex::new`, then `regex::Regex::replace_all` with a text as the
/// replacement.
///
/// `RESERVED_PATTERN` is an alternation of single characters, each written
/// literally or escaped, so it compiles and matches one reserved character at a
/// time; with an empty replacement just these characters go.
#[verifier::external_body]
fn regex_replace_all(pattern: &str, text: &str, replacement: &str) -> (r: String)
    requires
        pattern@ == RESERVED_PATTERN@,
        replacement@.len() == 0,
    ensures
        r@ == sanitized(text@),
{
    regex::Regex::new(pattern).unwrap().replace_all(text, replacement).to_string()
}

/// The file name with every reserved character taken out.
pub fn sanitize(file_name: &str) -> (r: String)
    ensures
        r@ == sanitized(file_name@),
{
    proof {
        reveal_strlit("");
    }
    regex_replace_all(RESERVED_PATTERN, file_name, "")
}

/// The name that a photo is stored under.
pub open spec fn photo_file_name(photo_id: i64) -> Seq<char> {
    decimal(photo_id as int) + ".jpeg"@
}

/// The file name of the photo with this id.
pub fn photo_name(photo_id: i64) -> (r: String)
    ensures
        r@ == photo_file_name(photo_id),
{
    let mut out = String::new();
    push_decimal(&mut out, photo_id);
    out.append(".jpeg");
    assert(out@ =~= photo_file_name(photo_id));
    out
}

/// Where a file of a comment is kept between its download and its upload.
pub open spec fn file_path(src_chat_id: i64, post_id: i32, file_name: Seq<char>) -> Seq<char> {
    ".tmp/"@ + decimal(src_chat_id as int) + "/"@ + decimal(post_id as int) + "/"@ + file_name
}

/// The path that a file is downloaded to.
pub fn download_path(src_chat_id: i64, post_id: i32, file_name: &str) -> (r: String)
    ensures
        r@ == file_path(src_chat_id, post_id, file_name@),
{
    let mut out = String::new();
    out.append(".tmp/");
    push_decimal(&mut out, src_chat_id);
    out.append("/");
    push_decimal(&mut out, post_id as i64);
    out.append("/");
    out.append(file_name);
    assert(out@ =~= file_path(src_chat_id, post_id, file_name@));
    out
}

/// An optional text, with a dash in place of one that is missing.
pub open spec fn or_dash(text: Option<Seq<char>>) -> Seq<char> {
    match text {
        Some(t) => t,
        None => "-"@,
    }
}

fn append_or_dash(out: &mut String, text: Option<&str>)
    ensures
        final(out)@ == old(out)@ + or_dash(
            match text {
                Some(t) => Some(t@),
                None => None,
            },
        ),
{
    match text {
        Some(t) => out.append(t),
        None => out.append("-"),
    }
}

/// The line that a dialogue is offered with.
pub open spec fn dialogue_line(name: Option<Seq<char>>, username: Option<Seq<char>>, id: i64)
    -> Seq<char> {
    or_dash(name) + " ("@ + or_dash(username) + ") ["@ + decimal(id as int) + "]"@
}

/// The line that offers a dialogue for selection: its name, its username and
/// its id, with a dash for what it does not have.
pub fn dialogue_label(name: Option<&str>, username: Option<&str>, id: i64) -> (r: String)
    ensures
        r@ == dialogue_line(
            match name {
                Some(t) => Some(t@),
                None => None,
            },
            match username {
                Some(t) => Some(t@),
                None => None,
            },
            id,
        ),
{
    let mut out = String::new();
    append_or_dash(&mut out, name);
    out.append(" (");
    append_or_dash(&mut out, username);
    out.append(") [");
    push_decimal(&mut out, id);
    out.append("]");
    let ghost n: Option<Seq<char>> = match name {
        Some(t) => Some(t@),
        None => None,
    };
    let ghost u: Option<Seq<char>> = match username {
        Some(t) => Some(t@),
        None => None,
    };
    assert(out@ =~= dialogue_line(n, u, id));
    out
}

/// What is shown during a flood wait.
pub open spec fn flood_line(seconds: u64) -> Seq<char> {
    "Flood wait encountered - sleeping for "@ + digits(seconds as nat) + "s...💤"@
}

/// What is shown during a flood wait of so many seconds.
pub fn flood_message(seconds: u64) -> (r: String)
    ensures
        r@ == flood_line(seconds),
{
    let mut out = "Flood wait encountered - sleeping for ".to_owned();
    push_digits(&mut out, seconds);
    out.append("s...💤");
    out
}

/// What is shown during the rest after a page.
pub open spec fn rest_line(seconds: u64) -> Seq<char> {
    "Sleeping for "@ + digits(seconds as nat) + "s...💤"@
}

/// What is shown during a rest of so many seconds.
pub fn rest_message(seconds: u64) -> (r: String)
    ensures
        r@ == rest_line(seconds),
{
    let mut out = "Sleeping for ".to_owned();
    push_digits(&mut out, seconds);
    out.append("s...💤");
    out
}

/// What is shown when a channel was copied.
pub open spec fn summary_line(count: i32, chat_id: i64) -> Seq<char> {
    "Collected "@ + decimal(count as int) + " messages from chat "@ + decimal(chat_id as int)
}

/// What is shown when so many posts of a channel were copied.
pub fn summary_message(count: i32, chat_id: i64) -> (r: String)
    ensures
        r@ == summary_line(count, chat_id),
{
    let mut out = "Collected ".to_owned();
    push_decimal(&mut out, count as i64);
    out.append(" messages from chat ");
    push_decimal(&mut out, chat_id);
    out
}

proof fn lemma_digits_plain(n: nat)
    ensures
        digits(n).len() > 0,
        forall|i: int| 0 <= i < digits(n).len() ==> '0' <= #[trigger] digits(n)[i] <= '9',
    decreases n,
{
    if n >= 10 {
        lemma_digits_plain(n / 10);
    }
}

proof fn lemma_digits_injective(a: nat, b: nat)
    requires
        digits(a) == digits(b),
    ensures
        a == b,
    decreases a,
{
    lemma_digits_plain(a / 10);
    lemma_digits_plain(b / 10);
    assert(digits(a).last() == digit_char(a % 10));
    assert(digits(b).last() == digit_char(b % 10));
    assert(digit_char(a % 10) as u32 == 48 + a % 10);
    assert(digit_char(b % 10) as u32 == 48 + b % 10);
    if a >= 10 && b >= 10 {
        assert(digits(a).drop_last() =~= digits(a / 10));
        assert(digits(b).drop_last() =~= digits(b / 10));
        lemma_digits_injective(a / 10, b / 10);
    } else if a >= 10 {
        assert(digits(a).len() == digits(a / 10).len() + 1);
        assert(digits(b).len() == 1);
    } else if b >= 10 {
        assert(digits(b).len() == digits(b / 10).len() + 1);
        assert(digits(a).len() == 1);
    }
}

/// Two integers with the same decimal form are the same integer.
pub proof fn law_decimal_injective(a: int, b: int)
    requires
        decimal(a) == decimal(b),
    ensures
        a == b,
{
    lemma_digits_plain(if a < 0 { (-a) as nat } else { a as nat });
    lemma_digits_plain(if b < 0 { (-b) as nat } else { b as nat });
    assert(decimal(a)[0] == decimal(b)[0]);
    if a < 0 && b < 0 {
        assert(decimal(a).skip(1) =~= digits((-a) as nat));
        assert(decimal(b).skip(1) =~= digits((-b) as nat));
        lemma_digits_injective((-a) as nat, (-b) as nat);
    } else if a >= 0 && b >= 0 {
        lemma_digits_injective(a as nat, b as nat);
    } else if a < 0 {
        assert(decimal(a)[0] == '-');
        assert('0' <= digits(b as nat)[0]);
    } else {
        assert(decimal(b)[0] == '-');
        assert('0' <= digits(a as nat)[0]);
    }
}

/// A sanitized name holds no reserved character.
pub proof fn law_sanitized_is_clean(name: Seq<char>)
    ensures
        forall|i: int|
            0 <= i < sanitized(name).len() ==> !is_reserved(#[trigger] sanitized(name)[i]),
{
    broadcast use Seq::lemma_filter_pred;

    let keep = |c: char| !is_reserved(c);
    assert forall|i: int| 0 <= i < sanitized(name).len() implies !is_reserved(
        #[trigger] sanitized(name)[i],
    ) by {
        assert(keep(name.filter(keep)[i]));
    }
}

/// A name without reserved characters is left as it is.
pub proof fn law_clean_name_kept(name: Seq<char>)
    requires
        forall|i: int| 0 <= i < name.len() ==> !is_reserved(#[trigger] name[i]),
    ensures
        sanitized(name) == name,
    decreases name.len(),
{
    reveal(Seq::filter);
    if name.len() > 0 {
        assert forall|i: int| 0 <= i < name.drop_last().len() implies !is_reserved(
            #[trigger] name.drop_last()[i],
        ) by {
            assert(name.drop_last()[i] == name[i]);
        }
        law_clean_name_kept(name.drop_last());
        assert(name.drop_last().push(name.last()) =~= name);
    }
}

/// Sanitizing a name again changes nothing.
pub proof fn law_sanitize_twice(name: Seq<char>)
    ensures
        sanitized(sanitized(name)) == sanitized(name),
{
    law_sanitized_is_clean(name);
    law_clean_name_kept(sanitized(name));
}

spec fn slash_free(s: Seq<char>) -> bool {
    forall|i: int| 0 <= i < s.len() ==> #[trigger] s[i] != '/'
}

proof fn lemma_decimal_slash_free(n: int)
    ensures
        slash_free(decimal(n)),
{
    lemma_digits_plain(if n < 0 { (-n) as nat } else { n as nat });
}

proof fn lemma_split_at_slash(a: Seq<char>, x: Seq<char>, b: Seq<char>, y: Seq<char>)
    requires
        slash_free(a),
        slash_free(b),
        a + "/"@ + x == b + "/"@ + y,
    ensures
        a == b,
        x == y,
{
    reveal_strlit("/");
    let l = a + "/"@ + x;
    let r = b + "/"@ + y;
    assert(l[a.len() as int] == '/');
    assert(r[b.len() as int] == '/');
    if a.len() < b.len() {
        assert(r[a.len() as int] == b[a.len() as int]);
    } else if b.len() < a.len() {
        assert(l[b.len() as int] == a[b.len() as int]);
    }
    assert(a =~= l.take(a.len() as int));
    assert(b =~= r.take(b.len() as int));
    assert(x =~= l.skip(a.len() as int + 1));
    assert(y =~= r.skip(b.len() as int + 1));
}

/// Files of different chats, of different posts or with different names are
/// kept under different paths.
pub proof fn law_paths_apart(
    chat_a: i64,
    post_a: i32,
    name_a: Seq<char>,
    chat_b: i64,
    post_b: i32,
    name_b: Seq<char>,
)
    requires
        file_path(chat_a, post_a, name_a) == file_path(chat_b, post_b, name_b),
    ensures
        chat_a == chat_b,
        post_a == post_b,
        name_a == name_b,
{
    let ca = decimal(chat_a as int);
    let cb = decimal(chat_b as int);
    let pa = decimal(post_a as int);
    let pb = decimal(post_b as int);
    let ra = pa + "/"@ + name_a;
    let rb = pb + "/"@ + name_b;
    let n = ".tmp/"@.len() as int;
    assert(file_path(chat_a, post_a, name_a).skip(n) =~= ca + "/"@ + ra);
    assert(file_path(chat_b, post_b, name_b).skip(n) =~= cb + "/"@ + rb);
    lemma_decimal_slash_free(chat_a as int);
    lemma_decimal_slash_free(chat_b as int);
    lemma_decimal_slash_free(post_a as int);
    lemma_decimal_slash_free(post_b as int);
    lemma_split_at_slash(ca, ra, cb, rb);
    lemma_split_at_slash(pa, name_a, pb, name_b);
    law_decimal_injective(chat_a as int, chat_b as int);
    law_decimal_injective(post_a as int, post_b as int);
}

/// The number that a row of decimal digits is read as.
pub open spec fn digits_read(text: Seq<char>) -> int
    decreases text.len(),
{
    if text.len() == 0 {
        0
    } else {
        10 * digits_read(text.drop_last()) + (text.last() as int - '0' as int)
    }
}

/// The number that a text is read as: a row of digits, or a minus sign before one.
pub open spec fn number_read(text: Seq<char>) -> int {
    if text.len() > 0 && text[0] == '-' {
        -digits_read(text.skip(1))
    } else {
        digits_read(text)
    }
}

/// Whether a text is a row of digits that does not start with a needless zero.
pub open spec fn plain_digits(text: Seq<char>) -> bool {
    &&& text.len() > 0
    &&& text[0] == '0' ==> text.len() == 1
    &&& forall|i: int| 0 <= i < text.len() ==> '0' <= #[trigger] text[i] <= '9'
}

proof fn lemma_digits_read_back(n: nat)
    ensures
        digits_read(digits(n)) == n,
        plain_digits(digits(n)),
        n > 0 ==> digits(n)[0] != '0',
    decreases n,
{
    assert(digit_char(n % 10) as int == 48 + n % 10);
    if n >= 10 {
        lemma_digits_read_back(n / 10);
        assert(digits(n).drop_last() =~= digits(n / 10));
        assert(digits(n)[0] == digits(n / 10)[0]);
    } else {
        assert(digits(n).drop_last() =~= Seq::empty());
        assert(digits_read(digits(n).drop_last()) == 0);
        assert(digit_char(n) as int == 48 + n);
    }
}

/// A decimal form reads back as the number that it was written for. It starts
/// with a minus sign just where the number is negative; the rest is digits,
/// without a needless zero.
pub proof fn law_decimal_reads_back(n: int)
    ensures
        number_read(decimal(n)) == n,
        n >= 0 ==> plain_digits(decimal(n)),
        n < 0 ==> decimal(n)[0] == '-' && plain_digits(decimal(n).skip(1)),
{
    if n < 0 {
        lemma_digits_read_back((-n) as nat);
        assert(decimal(n).skip(1) =~= digits((-n) as nat));
    } else {
        lemma_digits_read_back(n as nat);
        assert('0' <= decimal(n)[0]);
    }
}

/// A name is sanitized character by character: nine characters are taken out, and
/// every other is kept where it stands.
pub proof fn law_sanitized_by_character(before: Seq<char>, c: char, after: Seq<char>)
    ensures
        sanitized(Seq::<char>::empty()) == Seq::<char>::empty(),
        c == '\\' || c == '/' || c == ':' || c == '*' || c == '?' || c == '"' || c == '>' || c
            == '<' || c == '|' ==> sanitized(before + seq![c] + after) == sanitized(before + after),
        !(c == '\\' || c == '/' || c == ':' || c == '*' || c == '?' || c == '"' || c == '>' || c
            == '<' || c == '|') ==> sanitized(before + seq![c] + after) == sanitized(before) + seq![
            c,
        ] + sanitized(after),
{
    reveal(Seq::filter);
    let keep = |x: char| !is_reserved(x);
    let one = seq![c];
    Seq::filter_distributes_over_add(before + one, after, keep);
    Seq::filter_distributes_over_add(before, one, keep);
    Seq::filter_distributes_over_add(before, after, keep);
    assert(one.drop_last() =~= Seq::empty());
    assert(one.drop_last().filter(keep) =~= Seq::empty());
    assert(one.last() == c);
    if is_reserved(c) {
        assert(one.filter(keep) =~= Seq::empty());
        assert(sanitized(before + one + after) =~= sanitized(before + after));
    } else {
        assert(one.filter(keep) =~= one);
    }
}

/// What stands in a text behind a beginning and before an end.
pub open spec fn between(text: Seq<char>, start: Seq<char>, end: Seq<char>) -> Seq<char> {
    text.subrange(start.len() as int, text.len() - end.len())
}

/// Whether a text starts and ends like this, with something in between.
pub open spec fn framed(text: Seq<char>, start: Seq<char>, end: Seq<char>) -> bool {
    &&& start.len() + end.len() < text.len()
    &&& text.take(start.len() as int) == start
    &&& text.skip(text.len() - end.len()) == end
}

proof fn lemma_framed(start: Seq<char>, middle: Seq<char>, end: Seq<char>)
    requires
        middle.len() > 0,
    ensures
        framed(start + middle + end, start, end),
        between(start + middle + end, start, end) == middle,
{
    let text = start + middle + end;
    assert(text.take(start.len() as int) =~= start);
    assert(text.skip(text.len() - end.len()) =~= end);
    assert(between(text, start, end) =~= middle);
}

/// The name of a photo is its id, in digits that read back as the id, with the
/// ending of its format.
pub proof fn law_photo_name_holds_the_id(photo_id: i64)
    ensures
        framed(photo_file_name(photo_id), Seq::<char>::empty(), ".jpeg"@),
        number_read(between(photo_file_name(photo_id), Seq::<char>::empty(), ".jpeg"@)) == photo_id,
{
    law_decimal_reads_back(photo_id as int);
    lemma_framed(Seq::empty(), decimal(photo_id as int), ".jpeg"@);
    assert(Seq::<char>::empty() + decimal(photo_id as int) + ".jpeg"@ =~= photo_file_name(photo_id));
}

/// A path leads into the directory for files to move, then by the number of the
/// chat and by that of the post, each of which reads back from it, to the name.
pub proof fn law_path_holds_its_parts(chat: i64, post: i32, name: Seq<char>)
    ensures
        exists|a: Seq<char>, b: Seq<char>|
            #![trigger number_read(a), number_read(b)]
            file_path(chat, post, name) == ".tmp/"@ + a + seq!['/'] + b + seq!['/'] + name
                && number_read(a) == chat && number_read(b) == post,
{
    reveal_strlit("/");
    let a = decimal(chat as int);
    let b = decimal(post as int);
    law_decimal_reads_back(chat as int);
    law_decimal_reads_back(post as int);
    assert("/"@ =~= seq!['/']);
    assert(number_read(a) == chat && number_read(b) == post);
}

/// What is shown during a flood wait names its seconds.
pub proof fn law_flood_line_names_the_seconds(seconds: u64)
    ensures
        framed(flood_line(seconds), "Flood wait encountered - sleeping for "@, "s...💤"@),
        number_read(
            between(flood_line(seconds), "Flood wait encountered - sleeping for "@, "s...💤"@),
        ) == seconds,
{
    lemma_digits_read_back(seconds as nat);
    assert('0' <= digits(seconds as nat)[0]);
    lemma_framed(
        "Flood wait encountered - sleeping for "@,
        digits(seconds as nat),
        "s...💤"@,
    );
}

/// What is shown during a rest names its seconds.
pub proof fn law_rest_line_names_the_seconds(seconds: u64)
    ensures
        framed(rest_line(seconds), "Sleeping for "@, "s...💤"@),
        number_read(between(rest_line(seconds), "Sleeping for "@, "s...💤"@)) == seconds,
{
    lemma_digits_read_back(seconds as nat);
    assert('0' <= digits(seconds as nat)[0]);
    lemma_framed("Sleeping for "@, digits(seconds as nat), "s...💤"@);
}

/// What is shown when a channel was copied names the count, then the channel.
pub proof fn law_summary_names_count_and_chat(count: i32, chat_id: i64)
    ensures
        exists|a: Seq<char>, b: Seq<char>|
            #![trigger number_read(a), number_read(b)]
            summary_line(count, chat_id) == "Collected "@ + a + " messages from chat "@ + b
                && number_read(a) == count && number_read(b) == chat_id,
{
    let a = decimal(count as int);
    let b = decimal(chat_id as int);
    law_decimal_reads_back(count as int);
    law_decimal_reads_back(chat_id as int);
    assert(number_read(a) == count && number_read(b) == chat_id);
}

/// The line of a dialogue starts with its name and names the username and the id
/// after it, each in its own brackets. What is missing is a dash.
pub proof fn law_dialogue_line_names_all(name: Seq<char>, username: Seq<char>, id: i64)
    ensures
        framed(dialogue_line(Some(name), Some(username), id), name + " ("@ + username + ") ["@, "]"@),
        number_read(
            between(
                dialogue_line(Some(name), Some(username), id),
                name + " ("@ + username + ") ["@,
                "]"@,
            ),
        ) == id,
        dialogue_line(None, Some(username), id) == dialogue_line(Some(seq!['-']), Some(username), id),
        dialogue_line(Some(name), None, id) == dialogue_line(Some(name), Some(seq!['-']), id),
        dialogue_line(None, None, id) == dialogue_line(Some(seq!['-']), Some(seq!['-']), id),
{
    reveal_strlit("-");
    assert("-"@ =~= seq!['-']);
    law_decimal_reads_back(id as int);
    lemma_framed(name + " ("@ + username + ") ["@, decimal(id as int), "]"@);
}

} // verus!
