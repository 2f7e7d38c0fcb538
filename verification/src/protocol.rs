//! The pairing handshake between two nodes, as text over a stream.
//!
//! A client sends its pairing code on one line. The server reads one line,
//! trims it and compares it with the code it holds. On a match it answers
//! `OK`, then `TASKS <n>`, then the `n` task names, one per line; otherwise it
//! answers `FAIL`. The client reads the answer line by line.

use vstd::prelude::*;
use crate::text::{
    decimal, has_prefix, is_digit, is_trimmed, lemma_decimal_digits, lemma_parse_decimal, lemma_trim_line, lemma_trim_push_space,
    parse_number, parse_usize, push_char, push_decimal, same_text, strip_prefix, trim,
    trim_str, NumberError,
};

verus! {

broadcast use vstd::seq_lib::group_seq_properties;

/// The word that accepts a pairing.
pub open spec fn ok_word() -> Seq<char> {
    seq!['O', 'K']
}

/// The word that refuses a pairing.
pub open spec fn fail_word() -> Seq<char> {
    seq!['F', 'A', 'I', 'L']
}

/// What stands before the task count on its line.
pub open spec fn count_prefix() -> Seq<char> {
    seq!['T', 'A', 'S', 'K', 'S', ' ']
}

/// The characters of each string.
pub open spec fn strings_view(v: Seq<String>) -> Seq<Seq<char>> {
    v.map_values(|s: String| s@)
}

/// Each string followed by a line break.
pub open spec fn as_lines(v: Seq<Seq<char>>) -> Seq<Seq<char>> {
    v.map_values(|t: Seq<char>| t.push('\n'))
}

/// The text a client sends to offer a pairing code.
pub open spec fn request_text(code: Seq<char>) -> Seq<char> {
    code.push('\n')
}

/// The lines of the server's answer.
pub open spec fn reply_lines(accepted: bool, tasks: Seq<Seq<char>>) -> Seq<Seq<char>> {
    if accepted {
        seq![ok_word().push('\n'), (count_prefix() + decimal(tasks.len())).push('\n')] + as_lines(
            tasks,
        )
    } else {
        seq![fail_word().push('\n')]
    }
}

/// The text of the server's answer.
pub open spec fn reply_text(accepted: bool, tasks: Seq<Seq<char>>) -> Seq<char> {
    reply_lines(accepted, tasks).flatten()
}

/// The text that offers `code` to a server.
pub fn pairing_request(code: &str) -> (r: String)
    ensures
        r@ == request_text(code@),
{
    let mut r = String::from_str(code);
    push_char(&mut r, '\n');
    r
}

/// The server's decision on one offered line and the text it answers with.
pub struct PairingReply {
    /// Whether the offered code matched.
    pub accepted: bool,
    /// The answer to write back to the client.
    pub text: String,
}

/// Appends the characters of a literal to a string.
fn append_literal(out: &mut String, lit: &str)
    ensures
        final(out)@ == old(out)@ + lit@,
{
    out.append(lit);
}

/// Decides on a pairing offer: `received` is the line the client sent,
/// `expected` the code this node holds and `tasks` what it offers on success.
pub fn pairing_reply(received: &str, expected: &str, tasks: &Vec<String>) -> (r: PairingReply)
    ensures
        r.accepted == (trim(received@) == expected@),
        r.text@ == reply_text(r.accepted, strings_view(tasks@)),
{
    let got = trim_str(received);
    let accepted = same_text(got.as_str(), expected);
    let ghost tv = strings_view(tasks@);
    let mut text = String::new();
    if accepted {
        proof {
            reveal_strlit("OK\n");
            reveal_strlit("TASKS ");
        }
        append_literal(&mut text, "OK\n");
        append_literal(&mut text, "TASKS ");
        push_decimal(&mut text, tasks.len() as u64);
        push_char(&mut text, '\n');
        let ghost head = seq![ok_word().push('\n'), (count_prefix() + decimal(tv.len())).push('\n')];
        proof {
            assert(text@ =~= ok_word().push('\n') + (count_prefix() + decimal(tv.len())).push('\n'));
            seq![ok_word().push('\n')].lemma_flatten_one_element();
            seq![ok_word().push('\n')].lemma_flatten_push(
                (count_prefix() + decimal(tv.len())).push('\n'),
            );
            assert(seq![ok_word().push('\n')].push((count_prefix() + decimal(tv.len())).push('\n'))
                =~= head);
            assert(head + as_lines(tv.take(0)) =~= head);
        }
        let mut i: usize = 0;
        while i < tasks.len()
            invariant
                tv == strings_view(tasks@),
                i <= tasks.len(),
                head == seq![
                    ok_word().push('\n'),
                    (count_prefix() + decimal(tv.len())).push('\n'),
                ],
                text@ == (head + as_lines(tv.take(i as int))).flatten(),
            decreases tasks.len() - i,
        {
            append_literal(&mut text, tasks[i].as_str());
            push_char(&mut text, '\n');
            proof {
                let before = head + as_lines(tv.take(i as int));
                before.lemma_flatten_push(tv[i as int].push('\n'));
                assert(head + as_lines(tv.take(i + 1)) =~= before.push(tv[i as int].push('\n')));
            }
            i = i + 1;
        }
        assert(tv.take(tasks.len() as int) =~= tv);
    } else {
        proof {
            reveal_strlit("FAIL\n");
        }
        append_literal(&mut text, "FAIL\n");
        proof {
            seq![fail_word().push('\n')].lemma_flatten_one_element();
        }
    }
    PairingReply { accepted, text }
}


/// Why a client's pairing attempt failed.
#[derive(Debug)]
pub enum ProtocolError {
    /// The server answered `FAIL`: it holds another code.
    WrongPairingCode,
    /// The server's first line was neither `OK` nor `FAIL` (trimmed line given).
    UnexpectedResponse(String),
    /// After `OK` the next line did not start with `TASKS ` (trimmed line given).
    MissingTasksLine(String),
    /// The count after `TASKS ` is not a `usize`.
    BadTaskCount(NumberError),
}

/// A [`ProtocolError`] with its texts as character sequences.
pub enum ErrorView {
    WrongPairingCode,
    UnexpectedResponse(Seq<char>),
    MissingTasksLine(Seq<char>),
    BadTaskCount(NumberError),
}

impl View for ProtocolError {
    type V = ErrorView;

    open spec fn view(&self) -> ErrorView {
        match self {
            ProtocolError::WrongPairingCode => ErrorView::WrongPairingCode,
            ProtocolError::UnexpectedResponse(t) => ErrorView::UnexpectedResponse(t@),
            ProtocolError::MissingTasksLine(t) => ErrorView::MissingTasksLine(t@),
            ProtocolError::BadTaskCount(e) => ErrorView::BadTaskCount(*e),
        }
    }
}

/// The message that describes a failed pairing attempt.
pub open spec fn error_message(e: ErrorView) -> Seq<char> {
    match e {
        ErrorView::WrongPairingCode => "Wrong pairing code"@,
        ErrorView::UnexpectedResponse(o) => "Unexpected response: "@ + o,
        ErrorView::MissingTasksLine(l) => "Expected TASKS line, got: "@ + l,
        ErrorView::BadTaskCount(k) => match k {
            NumberError::Empty => "cannot parse integer from empty string"@,
            NumberError::InvalidDigit => "invalid digit found in string"@,
            NumberError::Overflow => "number too large to fit in target type"@,
        },
    }
}

impl ProtocolError {
    /// Describes the failure in words.
    pub fn message(&self) -> (m: String)
        ensures
            m@ == error_message(self@),
    {
        match self {
            ProtocolError::WrongPairingCode => String::from_str("Wrong pairing code"),
            ProtocolError::UnexpectedResponse(o) => {
                let mut m = String::from_str("Unexpected response: ");
                append_literal(&mut m, o.as_str());
                m
            },
            ProtocolError::MissingTasksLine(l) => {
                let mut m = String::from_str("Expected TASKS line, got: ");
                append_literal(&mut m, l.as_str());
                m
            },
            ProtocolError::BadTaskCount(k) => match k {
                NumberError::Empty => String::from_str("cannot parse integer from empty string"),
                NumberError::InvalidDigit => String::from_str("invalid digit found in string"),
                NumberError::Overflow => String::from_str("number too large to fit in target type"),
            },
        }
    }
}

/// Where a client stands in reading the server's answer.
pub enum ClientView {
    /// Waiting for `OK` or `FAIL`.
    AwaitingResponse,
    /// Accepted; waiting for the `TASKS <n>` line.
    AwaitingCount,
    /// Reading task names; `remaining` more are due after `tasks`.
    ReceivingTasks { remaining: nat, tasks: Seq<Seq<char>> },
    /// The exchange is over, with the task list or an error.
    Done(Result<Seq<Seq<char>>, ErrorView>),
}

/// How a client moves on after reading one line from the server.
pub open spec fn client_step(s: ClientView, line: Seq<char>) -> ClientView {
    let t = trim(line);
    match s {
        ClientView::AwaitingResponse => {
            if t == ok_word() {
                ClientView::AwaitingCount
            } else if t == fail_word() {
                ClientView::Done(Err(ErrorView::WrongPairingCode))
            } else {
                ClientView::Done(Err(ErrorView::UnexpectedResponse(t)))
            }
        },
        ClientView::AwaitingCount => {
            if has_prefix(t, count_prefix()) {
                match parse_number(t.skip(6)) {
                    Ok(n) => if n == 0 {
                        ClientView::Done(Ok(Seq::empty()))
                    } else {
                        ClientView::ReceivingTasks { remaining: n, tasks: Seq::empty() }
                    },
                    Err(e) => ClientView::Done(Err(ErrorView::BadTaskCount(e))),
                }
            } else {
                ClientView::Done(Err(ErrorView::MissingTasksLine(t)))
            }
        },
        ClientView::ReceivingTasks { remaining, tasks } => {
            if remaining <= 1 {
                ClientView::Done(Ok(tasks.push(t)))
            } else {
                ClientView::ReceivingTasks { remaining: (remaining - 1) as nat, tasks: tasks.push(t) }
            }
        },
        ClientView::Done(r) => ClientView::Done(r),
    }
}

/// The state a client reaches from `s` by reading `lines` in order.
pub open spec fn run_client(s: ClientView, lines: Seq<Seq<char>>) -> ClientView
    decreases lines.len(),
{
    if lines.len() == 0 {
        s
    } else {
        run_client(client_step(s, lines[0]), lines.drop_first())
    }
}

/// Where a client stands; see [`ClientView`].
pub enum ClientState {
    AwaitingResponse,
    AwaitingCount,
    ReceivingTasks { remaining: usize, tasks: Vec<String> },
    Done(Result<Vec<String>, ProtocolError>),
}

/// The view of a finished exchange.
pub open spec fn outcome_view(r: Result<Vec<String>, ProtocolError>) -> Result<
    Seq<Seq<char>>,
    ErrorView,
> {
    match r {
        Ok(v) => Ok(strings_view(v@)),
        Err(e) => Err(e@),
    }
}

impl View for ClientState {
    type V = ClientView;

    open spec fn view(&self) -> ClientView {
        match self {
            ClientState::AwaitingResponse => ClientView::AwaitingResponse,
            ClientState::AwaitingCount => ClientView::AwaitingCount,
            ClientState::ReceivingTasks { remaining, tasks } => ClientView::ReceivingTasks {
                remaining: *remaining as nat,
                tasks: strings_view(tasks@),
            },
            ClientState::Done(r) => ClientView::Done(outcome_view(*r)),
        }
    }
}

/// The client side of the handshake: it is fed the server's lines one by one.
pub struct PairingClient {
    state: ClientState,
}

impl View for PairingClient {
    type V = ClientView;

    closed spec fn view(&self) -> ClientView {
        self.state@
    }
}

impl PairingClient {
    /// A client that has sent its code and waits for the answer.
    pub fn new() -> (c: PairingClient)
        ensures
            c@ == ClientView::AwaitingResponse,
    {
        PairingClient { state: ClientState::AwaitingResponse }
    }

    /// Reads one line of the server's answer (as `read_line` returns it; the
    /// empty string at the end of the stream).
    pub fn feed(&mut self, line: &str)
        ensures
            final(self)@ == client_step(old(self)@, line@),
    {
        let t = trim_str(line);
        let mut st = ClientState::AwaitingResponse;
        std::mem::swap(&mut st, &mut self.state);
        self.state = Self::advance(st, t, Ghost(line@));
    }

    /// The state after `st` once the trimmed line `t` has been read.
    fn advance(st: ClientState, t: String, Ghost(line): Ghost<Seq<char>>) -> (n: ClientState)
        requires
            t@ == trim(line),
        ensures
            n@ == client_step(st@, line),
    {
        proof {
            reveal_strlit("OK");
            reveal_strlit("FAIL");
            reveal_strlit("TASKS ");
        }
        assert("OK"@ =~= ok_word());
        assert("FAIL"@ =~= fail_word());
        assert("TASKS "@ =~= count_prefix());
        match st {
            ClientState::AwaitingResponse => {
                if same_text(t.as_str(), "OK") {
                    ClientState::AwaitingCount
                } else if same_text(t.as_str(), "FAIL") {
                    ClientState::Done(Err(ProtocolError::WrongPairingCode))
                } else {
                    ClientState::Done(Err(ProtocolError::UnexpectedResponse(t)))
                }
            },
            ClientState::AwaitingCount => {
                match strip_prefix(t.as_str(), "TASKS ") {
                    Some(rest) => {
                        match parse_usize(rest.as_str()) {
                            Ok(n) => {
                                let v: Vec<String> = Vec::new();
                                assert(strings_view(v@) =~= Seq::empty());
                                if n == 0 {
                                    ClientState::Done(Ok(v))
                                } else {
                                    ClientState::ReceivingTasks { remaining: n, tasks: v }
                                }
                            },
                            Err(e) => ClientState::Done(Err(ProtocolError::BadTaskCount(e))),
                        }
                    },
                    None => ClientState::Done(Err(ProtocolError::MissingTasksLine(t))),
                }
            },
            ClientState::ReceivingTasks { remaining, tasks } => {
                let mut tasks = tasks;
                let ghost before = strings_view(tasks@);
                tasks.push(t);
                assert(strings_view(tasks@) =~= before.push(trim(line)));
                if remaining <= 1 {
                    ClientState::Done(Ok(tasks))
                } else {
                    ClientState::ReceivingTasks { remaining: remaining - 1, tasks }
                }
            },
            ClientState::Done(r) => ClientState::Done(r),
        }
    }

    /// Whether the exchange is over.
    pub fn is_done(&self) -> (b: bool)
        ensures
            b == (self@ is Done),
    {
        match &self.state {
            ClientState::Done(_) => true,
            _ => false,
        }
    }

    /// The result of a finished exchange, or `None` while lines are still due.
    pub fn into_outcome(self) -> (r: Option<Result<Vec<String>, ProtocolError>>)
        ensures
            match self@ {
                ClientView::Done(o) => r is Some && outcome_view(r->0) == o,
                _ => r is None,
            },
    {
        match self.state {
            ClientState::Done(o) => Some(o),
            _ => None,
        }
    }
}


/// The length of the first line of `text` with its line break, or of all of
/// `text` when it holds no line break.
pub open spec fn line_end(text: Seq<char>) -> nat
    decreases text.len(),
{
    if text.len() == 0 {
        0
    } else if text[0] == '\n' {
        1
    } else {
        1 + line_end(text.drop_first())
    }
}

/// The first line of a non-empty text is not empty and lies within it.
pub proof fn lemma_line_end_bounds(text: Seq<char>)
    ensures
        line_end(text) <= text.len(),
        text.len() > 0 ==> line_end(text) >= 1,
    decreases text.len(),
{
    if text.len() > 0 && text[0] != '\n' {
        lemma_line_end_bounds(text.drop_first());
    }
}

/// The lines that successive calls of `read_line` return on `text`, each
/// with its line break (the last one without, when `text` does not end in one).
pub open spec fn read_lines(text: Seq<char>) -> Seq<Seq<char>>
    decreases text.len(),
{
    if text.len() == 0 {
        Seq::empty()
    } else {
        proof {
            lemma_line_end_bounds(text);
        }
        seq![text.take(line_end(text) as int)] + read_lines(text.skip(line_end(text) as int))
    }
}

/// One line with its line break and no other.
pub open spec fn is_line(l: Seq<char>) -> bool {
    l.len() >= 1 && l.last() == '\n' && !l.drop_last().contains('\n')
}

/// A line at the front of a text is read whole.
pub proof fn lemma_line_end_of_line(l: Seq<char>, rest: Seq<char>)
    requires
        is_line(l),
    ensures
        line_end(l + rest) == l.len(),
    decreases l.len(),
{
    let t = l + rest;
    if l.len() == 1 {
        assert(t[0] == '\n');
    } else {
        assert(t[0] == l[0]);
        assert(l.drop_last()[0] == l[0]);
        assert(l[0] != '\n');
        assert(t.drop_first() =~= l.drop_first() + rest);
        assert(l.drop_first().drop_last() =~= l.drop_last().drop_first());
        assert forall|i: int| 0 <= i < l.drop_first().drop_last().len() implies l.drop_first().drop_last()[i] != '\n' by {
            assert(l.drop_first().drop_last()[i] == l.drop_last()[i + 1]);
        }
        lemma_line_end_of_line(l.drop_first(), rest);
    }
}

/// Reading the concatenation of whole lines gives those lines back.
pub proof fn lemma_read_joined_lines(lines: Seq<Seq<char>>)
    requires
        forall|i: int| 0 <= i < lines.len() ==> is_line(#[trigger] lines[i]),
    ensures
        read_lines(lines.flatten()) == lines,
    decreases lines.len(),
{
    if lines.len() > 0 {
        let first = lines[0];
        let rest = lines.drop_first();
        assert(is_line(lines[0]));
        assert(lines.flatten() == first + rest.flatten());
        lemma_line_end_of_line(first, rest.flatten());
        assert((first + rest.flatten()).take(first.len() as int) =~= first);
        assert((first + rest.flatten()).skip(first.len() as int) =~= rest.flatten());
        assert forall|i: int| 0 <= i < rest.len() implies is_line(#[trigger] rest[i]) by {
            assert(rest[i] == lines[i + 1]);
        }
        lemma_read_joined_lines(rest);
        assert(seq![first] + rest =~= lines);
    } else {
        assert(lines.flatten() =~= Seq::<char>::empty());
    }
}

/// A finished client ignores further lines.
pub proof fn lemma_run_done(r: Result<Seq<Seq<char>>, ErrorView>, lines: Seq<Seq<char>>)
    ensures
        run_client(ClientView::Done(r), lines) == ClientView::Done(r),
    decreases lines.len(),
{
    if lines.len() > 0 {
        lemma_run_done(r, lines.drop_first());
    }
}

/// Each string trimmed.
pub open spec fn trimmed_all(v: Seq<Seq<char>>) -> Seq<Seq<char>> {
    v.map_values(|t: Seq<char>| trim(t))
}

/// A client that expects `ts.len()` task lines collects those tasks, trimmed.
pub proof fn lemma_run_tasks(acc: Seq<Seq<char>>, ts: Seq<Seq<char>>)
    requires
        ts.len() >= 1,
    ensures
        run_client(ClientView::ReceivingTasks { remaining: ts.len(), tasks: acc }, as_lines(ts))
            == ClientView::Done(Ok(acc + trimmed_all(ts))),
    decreases ts.len(),
{
    let lines = as_lines(ts);
    lemma_trim_push_space(ts[0], '\n');
    assert(lines[0] == ts[0].push('\n'));
    let next = client_step(ClientView::ReceivingTasks { remaining: ts.len(), tasks: acc }, lines[0]);
    if ts.len() == 1 {
        assert(next == ClientView::Done(Ok(acc.push(trim(ts[0])))));
        assert(acc.push(trim(ts[0])) =~= acc + trimmed_all(ts));
        lemma_run_done(Ok(acc + trimmed_all(ts)), lines.drop_first());
    } else {
        assert(lines.drop_first() =~= as_lines(ts.drop_first()));
        lemma_run_tasks(acc.push(trim(ts[0])), ts.drop_first());
        assert(acc.push(trim(ts[0])) + trimmed_all(ts.drop_first()) =~= acc + trimmed_all(ts));
    }
}

/// The count line announces `n` tasks to a client that waits for it.
pub proof fn lemma_count_line(n: nat)
    requires
        n <= usize::MAX,
    ensures
        is_line((count_prefix() + decimal(n)).push('\n')),
        client_step(ClientView::AwaitingCount, (count_prefix() + decimal(n)).push('\n')) == if n
            == 0 {
            ClientView::Done(Ok(Seq::<Seq<char>>::empty()))
        } else {
            ClientView::ReceivingTasks { remaining: n, tasks: Seq::empty() }
        },
{
    let count_text = count_prefix() + decimal(n);
    let count_line = count_text.push('\n');
    lemma_decimal_digits(n);
    lemma_parse_decimal(n);
    assert(count_line.drop_last() =~= count_text);
    assert forall|i: int| 0 <= i < count_text.len() implies count_text[i] != '\n' by {
        if i >= 6 {
            assert(count_text[i] == decimal(n)[i - 6]);
        }
    }
    assert(count_text.last() == decimal(n).last());
    assert(is_digit(decimal(n)[decimal(n).len() - 1]));
    assert(is_trimmed(count_text));
    lemma_trim_line(count_text);
    assert(count_text.subrange(0, 6) =~= count_prefix());
    assert(count_text.skip(6) =~= decimal(n));
}

/// Every line of the server's answer is a whole line.
pub proof fn lemma_reply_lines_whole(accepted: bool, tasks: Seq<Seq<char>>)
    requires
        tasks.len() <= usize::MAX,
        forall|i: int| 0 <= i < tasks.len() ==> !(#[trigger] tasks[i]).contains('\n'),
    ensures
        forall|i: int|
            0 <= i < reply_lines(accepted, tasks).len() ==> is_line(
                #[trigger] reply_lines(accepted, tasks)[i],
            ),
{
    let lines = reply_lines(accepted, tasks);
    if accepted {
        lemma_count_line(tasks.len());
        assert(ok_word().push('\n').drop_last() =~= ok_word());
        assert forall|i: int| 0 <= i < lines.len() implies is_line(#[trigger] lines[i]) by {
            if i >= 2 {
                assert(lines[i] == tasks[i - 2].push('\n'));
                assert(tasks[i - 2].push('\n').drop_last() =~= tasks[i - 2]);
            }
        }
    } else {
        assert(fail_word().push('\n').drop_last() =~= fail_word());
    }
}

/// A client reading an accepting answer ends with the offered tasks, trimmed.
pub proof fn lemma_accepted_run(tasks: Seq<Seq<char>>)
    requires
        tasks.len() <= usize::MAX,
    ensures
        run_client(ClientView::AwaitingResponse, reply_lines(true, tasks)) == ClientView::Done(
            Ok(trimmed_all(tasks)),
        ),
{
    let lines = reply_lines(true, tasks);
    lemma_trim_line(ok_word());
    lemma_count_line(tasks.len());
    let s1 = client_step(ClientView::AwaitingResponse, lines[0]);
    assert(s1 == ClientView::AwaitingCount);
    let l1 = lines.drop_first();
    assert(l1[0] == (count_prefix() + decimal(tasks.len())).push('\n'));
    let s2 = client_step(s1, l1[0]);
    let rest = l1.drop_first();
    assert(rest =~= as_lines(tasks));
    assert(run_client(ClientView::AwaitingResponse, lines) == run_client(s1, l1));
    assert(run_client(s1, l1) == run_client(s2, rest));
    if tasks.len() == 0 {
        assert(trimmed_all(tasks) =~= Seq::<Seq<char>>::empty());
        lemma_run_done(Ok(trimmed_all(tasks)), rest);
    } else {
        lemma_run_tasks(Seq::empty(), tasks);
        assert(Seq::<Seq<char>>::empty() + trimmed_all(tasks) =~= trimmed_all(tasks));
    }
}

/// The pairing handshake delivers what each side holds. A code without line
/// breaks, sent as a request, is read back by the server as one line whose
/// trimmed form is the trimmed code. The server's answer to it, read line by
/// line by a fresh client, leaves the client with the server's task names,
/// each trimmed, when the trimmed code equals the server's code, and with
/// `WrongPairingCode` otherwise; this holds for task names without line
/// breaks.
pub proof fn law_pairing_round_trip(code: Seq<char>, expected: Seq<char>, tasks: Seq<Seq<char>>)
    requires
        !code.contains('\n'),
        tasks.len() <= usize::MAX,
        forall|i: int| 0 <= i < tasks.len() ==> !(#[trigger] tasks[i]).contains('\n'),
    ensures
        read_lines(request_text(code)) == seq![request_text(code)],
        trim(request_text(code)) == trim(code),
        run_client(
            ClientView::AwaitingResponse,
            read_lines(reply_text(trim(code) == expected, tasks)),
        ) == if trim(code) == expected {
            ClientView::Done(Ok(trimmed_all(tasks)))
        } else {
            ClientView::Done(Err(ErrorView::WrongPairingCode))
        },
{
    lemma_trim_push_space(code, '\n');
    assert(request_text(code).drop_last() =~= code);
    seq![request_text(code)].lemma_flatten_one_element();
    lemma_read_joined_lines(seq![request_text(code)]);
    let accepted = trim(code) == expected;
    lemma_reply_lines_whole(accepted, tasks);
    lemma_read_joined_lines(reply_lines(accepted, tasks));
    if accepted {
        lemma_accepted_run(tasks);
    } else {
        let lines = reply_lines(false, tasks);
        lemma_trim_line(fail_word());
        lemma_run_done(Err(ErrorView::WrongPairingCode), lines.drop_first());
    }
}

/// The server's answer on the wire: a refused offer is answered `FAIL` and a
/// line break; an accepted one `OK`, then `TASKS ` with the number of tasks in
/// decimal, then each task name on a line of its own, in order.
pub proof fn law_reply_wire_format(tasks: Seq<Seq<char>>)
    ensures
        reply_text(false, tasks) == "FAIL\n"@,
        reply_text(true, tasks) == "OK\nTASKS "@ + decimal(tasks.len()) + "\n"@ + tasks.map_values(
            |t: Seq<char>| t.push('\n'),
        ).flatten(),
{
    reveal_strlit("FAIL\n");
    reveal_strlit("OK\nTASKS ");
    reveal_strlit("\n");
    seq![fail_word().push('\n')].lemma_flatten_one_element();
    assert(fail_word().push('\n') =~= "FAIL\n"@);
    let head = seq![ok_word().push('\n'), (count_prefix() + decimal(tasks.len())).push('\n')];
    vstd::seq_lib::lemma_flatten_concat(head, as_lines(tasks));
    seq![ok_word().push('\n')].lemma_flatten_one_element();
    seq![ok_word().push('\n')].lemma_flatten_push((count_prefix() + decimal(tasks.len())).push('\n'));
    assert(seq![ok_word().push('\n')].push((count_prefix() + decimal(tasks.len())).push('\n')) =~= head);
    assert(head.flatten() =~= "OK\nTASKS "@ + decimal(tasks.len()) + "\n"@);
}

/// A client that meets anything but `OK` or `FAIL` first reports the
/// trimmed line as an unexpected response; after `OK`, a line that is not
/// `TASKS ` and a count is reported as a missing tasks line, and a count that
/// does not parse as the reason it does not; `TASKS 0` ends the exchange with
/// no task; a finished exchange stays as it ended.
pub proof fn law_client_answers(line: Seq<char>, r: Result<Seq<Seq<char>>, ErrorView>)
    ensures
        trim(line) != "OK"@ && trim(line) != "FAIL"@ ==> client_step(
            ClientView::AwaitingResponse,
            line,
        ) == ClientView::Done(Err(ErrorView::UnexpectedResponse(trim(line)))),
        trim(line) == "FAIL"@ ==> client_step(ClientView::AwaitingResponse, line) == ClientView::Done(
            Err(ErrorView::WrongPairingCode),
        ),
        trim(line) == "OK"@ ==> client_step(ClientView::AwaitingResponse, line)
            == ClientView::AwaitingCount,
        !has_prefix(trim(line), "TASKS "@) ==> client_step(ClientView::AwaitingCount, line)
            == ClientView::Done(Err(ErrorView::MissingTasksLine(trim(line)))),
        has_prefix(trim(line), "TASKS "@) && parse_number(trim(line).skip(6)) is Err ==> client_step(
            ClientView::AwaitingCount,
            line,
        ) == ClientView::Done(Err(ErrorView::BadTaskCount(parse_number(trim(line).skip(6))->Err_0))),
        has_prefix(trim(line), "TASKS "@) && parse_number(trim(line).skip(6)) == Ok::<nat, NumberError>(0)
            ==> client_step(ClientView::AwaitingCount, line) == ClientView::Done(
            Ok(Seq::<Seq<char>>::empty()),
        ),
        client_step(ClientView::Done(r), line) == ClientView::Done(r),
{
    reveal_strlit("OK");
    reveal_strlit("FAIL");
    reveal_strlit("TASKS ");
    assert("OK"@ =~= ok_word());
    assert("FAIL"@ =~= fail_word());
    assert("TASKS "@ =~= count_prefix());
}

} // verus!
