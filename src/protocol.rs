use vstd::prelude::*;
use vstd::string::*;
use crate::store::{CommandResult, Request, RequestModel, ResultModel};

verus! {

/// A key or a value on the wire: not empty, and without a space.
pub open spec fn is_token(t: Seq<char>) -> bool {
    t.len() > 0 && forall|i: int| 0 <= i < t.len() ==> t[i] != ' '
}

pub open spec fn get_word() -> Seq<char> {
    seq!['G', 'E', 'T']
}

pub open spec fn put_word() -> Seq<char> {
    seq!['S', 'E', 'T']
}

/// A request is sendable when its key and value are tokens.
pub open spec fn is_sendable(r: RequestModel) -> bool {
    match r {
        RequestModel::Get { key } => is_token(key),
        RequestModel::Put { key, val } => is_token(key) && is_token(val),
    }
}

/// The text of a request: `GET <key>` or `SET <key> <value>`.
pub open spec fn request_line(r: RequestModel) -> Seq<char> {
    match r {
        RequestModel::Get { key } => get_word() + seq![' '] + key,
        RequestModel::Put { key, val } => put_word() + seq![' '] + key + seq![' '] + val,
    }
}

/// Whether `s` is the text of some sendable request.
pub open spec fn is_request_line(s: Seq<char>) -> bool {
    exists|r: RequestModel| is_sendable(r) && #[trigger] request_line(r) == s
}

/// Whether `s` opens with `w` as a whole word: `w` alone, or `w` then a space.
pub open spec fn opens_with_word(s: Seq<char>, w: Seq<char>) -> bool {
    s == w || (s.len() > w.len() && s.subrange(0, w.len() as int) == w && s[w.len() as int] == ' ')
}

/// Whether `s` opens with one of the two command words.
pub open spec fn names_command(s: Seq<char>) -> bool {
    opens_with_word(s, get_word()) || opens_with_word(s, put_word())
}

/// Why a line was not a request.
#[derive(Clone, Copy, Debug, PartialEq, Eq, Structural)]
pub enum ProtocolError {
    /// The line does not open with `GET` or `SET`.
    UnknownCommand,
    /// The command word is followed by the wrong number or shape of tokens.
    BadArguments,
}

/// The response text of a protocol error.
pub open spec fn error_message(e: ProtocolError) -> Seq<char> {
    match e {
        ProtocolError::UnknownCommand => seq![
            'u', 'n', 'k', 'n', 'o', 'w', 'n', ' ', 'c', 'o', 'm', 'm', 'a', 'n', 'd',
        ],
        ProtocolError::BadArguments => seq![
            'b', 'a', 'd', ' ', 'a', 'r', 'g', 'u', 'm', 'e', 'n', 't', 's',
        ],
    }
}

/// The response text of a result; `key` is the key of the request it answers.
pub open spec fn response_line(r: ResultModel, key: Seq<char>) -> Seq<char> {
    match r {
        ResultModel::Found { key, val } => seq!['O', 'K', ' '] + key + seq![' '] + val,
        ResultModel::NotFound => seq!['N', 'O', 'T', '_', 'F', 'O', 'U', 'N', 'D', ' '] + key,
        ResultModel::Failed { msg } => seq!['E', 'R', 'R', ' '] + msg,
    }
}

impl ProtocolError {
    /// The text sent back to the client for this error.
    pub fn message(&self) -> (r: String)
        ensures
            r@ == error_message(*self),
    {
        match self {
            ProtocolError::UnknownCommand => {
                proof {
                    reveal_strlit("unknown command");
                }
                String::from_str("unknown command")
            },
            ProtocolError::BadArguments => {
                proof {
                    reveal_strlit("bad arguments");
                }
                String::from_str("bad arguments")
            },
        }
    }

    /// The result that reports this error to the client.
    pub fn to_result(&self) -> (r: CommandResult)
        ensures
            r@ == (ResultModel::Failed { msg: error_message(*self) }),
    {
        CommandResult::Failed { msg: self.message() }
    }
}

/// Whether the characters of `line` from `from` to its end form a token.
fn token_from(line: &str, from: usize, n: usize) -> (r: bool)
    requires
        n == line@.len(),
        from <= n,
    ensures
        r == is_token(line@.subrange(from as int, n as int)),
{
    if from == n {
        return false;
    }
    let mut i: usize = from;
    while i < n
        invariant
            from <= i <= n,
            n == line@.len(),
            forall|j: int| from <= j < i ==> line@[j] != ' ',
        decreases n - i,
    {
        if line.get_char(i) == ' ' {
            assert(line@.subrange(from as int, n as int)[i - from] == ' ');
            return false;
        }
        i = i + 1;
    }
    assert forall|j: int| 0 <= j < n - from implies line@.subrange(from as int, n as int)[j] != ' ' by {
        assert(line@.subrange(from as int, n as int)[j] == line@[from + j]);
    }
    true
}

/// The index of the first space of `line` at or after `from`, if any.
fn first_space(line: &str, from: usize, n: usize) -> (r: Option<usize>)
    requires
        n == line@.len(),
        from <= n,
    ensures
        match r {
            Some(j) => from <= j < n && line@[j as int] == ' ' && forall|i: int|
                from <= i < j ==> line@[i] != ' ',
            None => forall|i: int| from <= i < n ==> line@[i] != ' ',
        },
{
    let mut i: usize = from;
    while i < n
        invariant
            from <= i <= n,
            n == line@.len(),
            forall|j: int| from <= j < i ==> line@[j] != ' ',
        decreases n - i,
    {
        if line.get_char(i) == ' ' {
            return Some(i);
        }
        i = i + 1;
    }
    None
}

/// Whether `line` opens with the three letters `a`, `b`, `c` as a whole word.
fn opens_with(line: &str, n: usize, a: char, b: char, c: char) -> (r: bool)
    requires
        n == line@.len(),
    ensures
        r == opens_with_word(line@, seq![a, b, c]),
{
    let ghost w = seq![a, b, c];
    if n < 3 || line.get_char(0) != a || line.get_char(1) != b || line.get_char(2) != c {
        proof {
            if n >= 3 && line@.subrange(0, 3) == w {
                assert(line@[0] == line@.subrange(0, 3)[0]);
                assert(line@[1] == line@.subrange(0, 3)[1]);
                assert(line@[2] == line@.subrange(0, 3)[2]);
            }
            if line@ == w {
                assert(line@[0] == w[0] && line@[1] == w[1] && line@[2] == w[2]);
            }
        }
        return false;
    }
    assert(line@.subrange(0, 3) =~= w);
    if n == 3 {
        assert(line@ =~= w);
        return true;
    }
    line.get_char(3) == ' '
}

/// Reads one request line: `GET <key>` or `SET <key> <value>`, with single
/// spaces between words and no space inside a key or a value.
pub fn parse_request(line: &str) -> (r: Result<Request, ProtocolError>)
    ensures
        match r {
            Ok(req) => is_sendable(req@) && request_line(req@) == line@,
            Err(ProtocolError::UnknownCommand) => !names_command(line@),
            Err(ProtocolError::BadArguments) => names_command(line@) && !is_request_line(line@),
        },
        r is Ok <==> is_request_line(line@),
{
    let n = line.unicode_len();
    let is_get = opens_with(line, n, 'G', 'E', 'T');
    let is_put = opens_with(line, n, 'S', 'E', 'T');
    if !is_get && !is_put {
        proof {
            if is_request_line(line@) {
                let q = choose|q: RequestModel| is_sendable(q) && #[trigger] request_line(q) == line@;
                lemma_line_opens_with_word(q);
            }
        }
        return Err(ProtocolError::UnknownCommand);
    }
    if n < 4 {
        proof {
            if is_request_line(line@) {
                let q = choose|q: RequestModel| is_sendable(q) && #[trigger] request_line(q) == line@;
            }
        }
        return Err(ProtocolError::BadArguments);
    }
    if is_get {
        if token_from(line, 4, n) {
            let key = line.substring_char(4, n).to_owned();
            let ghost q = RequestModel::Get { key: key@ };
            assert(request_line(q) =~= line@) by {
                assert(line@.subrange(0, 3) =~= get_word());
                assert(line@ =~= line@.subrange(0, 3) + seq![' '] + line@.subrange(4, n as int));
            }
            return Ok(Request::Get { key });
        }
        proof {
            if is_request_line(line@) {
                let q = choose|q: RequestModel| is_sendable(q) && #[trigger] request_line(q) == line@;
                lemma_line_opens_with_word(q);
                match q {
                    RequestModel::Get { key } => {
                        assert(line@.subrange(4, n as int) =~= key);
                    },
                    RequestModel::Put { .. } => {
                        assert(line@[0] == 'S');
                    },
                }
            }
        }
        return Err(ProtocolError::BadArguments);
    }
    match first_space(line, 4, n) {
        Some(j) => {
            if j > 4 && token_from(line, j + 1, n) {
                let key = line.substring_char(4, j).to_owned();
                let val = line.substring_char(j + 1, n).to_owned();
                let ghost q = RequestModel::Put { key: key@, val: val@ };
                assert(request_line(q) =~= line@) by {
                    assert(line@.subrange(0, 3) =~= put_word());
                    assert(line@ =~= line@.subrange(0, 3) + seq![' '] + line@.subrange(4, j as int)
                        + seq![' '] + line@.subrange(j + 1, n as int));
                }
                assert(is_token(key@)) by {
                    assert forall|i: int| 0 <= i < key@.len() implies key@[i] != ' ' by {
                        assert(key@[i] == line@[4 + i]);
                    }
                }
                return Ok(Request::Put { key, val });
            }
            proof {
                if is_request_line(line@) {
                    let q = choose|q: RequestModel| is_sendable(q) && #[trigger] request_line(q) == line@;
                    lemma_line_opens_with_word(q);
                    match q {
                        RequestModel::Get { .. } => {
                            assert(line@[0] == 'G');
                        },
                        RequestModel::Put { key, val } => {
                            let kl = key.len() as int;
                            assert(line@[4 + kl] == ' ');
                            assert forall|i: int| 4 <= i < 4 + kl implies line@[i] != ' ' by {
                                assert(line@[i] == key[i - 4]);
                            }
                            assert(j == 4 + kl);
                            assert(line@.subrange(j + 1, n as int) =~= val);
                        },
                    }
                }
            }
            Err(ProtocolError::BadArguments)
        },
        None => {
            proof {
                if is_request_line(line@) {
                    let q = choose|q: RequestModel| is_sendable(q) && #[trigger] request_line(q) == line@;
                    lemma_line_opens_with_word(q);
                    match q {
                        RequestModel::Get { .. } => {
                            assert(line@[0] == 'G');
                        },
                        RequestModel::Put { key, val } => {
                            assert(line@[4 + key.len() as int] == ' ');
                        },
                    }
                }
            }
            Err(ProtocolError::BadArguments)
        },
    }
}

/// The text of a sendable request opens with its command word and a space.
proof fn lemma_line_opens_with_word(q: RequestModel)
    requires
        is_sendable(q),
    ensures
        request_line(q).len() >= 4,
        request_line(q)[3] == ' ',
        q is Get ==> request_line(q).subrange(0, 3) == get_word() && request_line(q)[0] == 'G',
        q is Put ==> request_line(q).subrange(0, 3) == put_word() && request_line(q)[0] == 'S',
        names_command(request_line(q)),
{
    match q {
        RequestModel::Get { key } => {
            assert(request_line(q).subrange(0, 3) =~= get_word());
        },
        RequestModel::Put { key, val } => {
            assert(request_line(q).subrange(0, 3) =~= put_word());
        },
    }
}

/// The response text for `r`, the result of a request on `key`:
/// `OK <key> <value>`, `NOT_FOUND <key>` or `ERR <message>`.
pub fn encode_result(r: &CommandResult, key: &str) -> (out: String)
    ensures
        out@ == response_line(r@, key@),
{
    match r {
        CommandResult::Found { key, val } => {
            proof {
                reveal_strlit("OK ");
                reveal_strlit(" ");
            }
            let mut out = String::from_str("OK ");
            out.append(key.as_str());
            out.append(" ");
            out.append(val.as_str());
            out
        },
        CommandResult::NotFound => {
            proof {
                reveal_strlit("NOT_FOUND ");
            }
            let mut out = String::from_str("NOT_FOUND ");
            out.append(key);
            out
        },
        CommandResult::Failed { msg } => {
            proof {
                reveal_strlit("ERR ");
            }
            let mut out = String::from_str("ERR ");
            out.append(msg.as_str());
            out
        },
    }
}

impl Request {
    /// The key the request is about.
    pub fn key(&self) -> (k: &String)
        ensures
            k@ == (match self@ {
                RequestModel::Get { key } => key,
                RequestModel::Put { key, .. } => key,
            }),
    {
        match self {
            Request::Get { key } => key,
            Request::Put { key, .. } => key,
        }
    }

    /// The text of this request, as a client sends it.
    pub fn to_line(&self) -> (out: String)
        ensures
            out@ == request_line(self@),
    {
        match self {
            Request::Get { key } => {
                proof {
                    reveal_strlit("GET ");
                }
                let mut out = String::from_str("GET ");
                out.append(key.as_str());
                out
            },
            Request::Put { key, val } => {
                proof {
                    reveal_strlit("SET ");
                    reveal_strlit(" ");
                }
                let mut out = String::from_str("SET ");
                out.append(key.as_str());
                out.append(" ");
                out.append(val.as_str());
                out
            },
        }
    }
}

/// Two sendable requests with the same text are the same request, so a
/// line reads back as exactly the request that wrote it.
pub proof fn lemma_request_line_unambiguous(a: RequestModel, b: RequestModel)
    requires
        is_sendable(a),
        is_sendable(b),
        request_line(a) == request_line(b),
    ensures
        a == b,
{
    lemma_line_opens_with_word(a);
    lemma_line_opens_with_word(b);
    let s = request_line(a);
    match a {
        RequestModel::Get { key: ka } => {
            match b {
                RequestModel::Get { key: kb } => {
                    assert(ka =~= s.subrange(4, s.len() as int));
                    assert(kb =~= s.subrange(4, s.len() as int));
                },
                RequestModel::Put { .. } => {},
            }
        },
        RequestModel::Put { key: ka, val: va } => {
            match b {
                RequestModel::Get { .. } => {},
                RequestModel::Put { key: kb, val: vb } => {
                    if ka.len() < kb.len() {
                        assert(s[4 + ka.len() as int] == ' ');
                        assert(s[4 + ka.len() as int] == kb[ka.len() as int]);
                    } else if kb.len() < ka.len() {
                        assert(s[4 + kb.len() as int] == ' ');
                        assert(s[4 + kb.len() as int] == ka[kb.len() as int]);
                    }
                    assert(ka =~= s.subrange(4, 4 + ka.len() as int));
                    assert(kb =~= s.subrange(4, 4 + kb.len() as int));
                    assert(va =~= s.subrange(5 + ka.len() as int, s.len() as int));
                    assert(vb =~= s.subrange(5 + kb.len() as int, s.len() as int));
                },
            }
        },
    }
}

} // verus!
