//! The wire format between the `ipc` subcommand and the host's IPC server, and
//! the wrapper scripts that expose IPC commands inside a sandbox.

use vstd::prelude::*;

use crate::frontend::CliError;
use crate::text::{chars_of, decimal, push_str, string_of, trim_ws, trim_ws_chars, u64_to_decimal};

verus! {

/// Largest IPC response body accepted (16 MiB).
pub const MAX_IPC_RESPONSE_LEN: usize = 16777216;

/// Why an IPC frame is refused.
#[derive(Debug, Clone, Copy, PartialEq, Eq, Structural)]
pub enum IpcFrameError {
    /// The method name is longer than 255 bytes.
    MethodTooLong,
    /// The announced response length is 0 or above the limit.
    InvalidResponseLength(usize),
}

/// Big-endian bytes of `n`.
pub open spec fn be32(n: u32) -> Seq<u8> {
    seq![
        ((n / 16777216) % 256) as u8,
        ((n / 65536) % 256) as u8,
        ((n / 256) % 256) as u8,
        (n % 256) as u8,
    ]
}

/// The request frame for `method` with `params`: the body length (method
/// length byte, method, parameters) as a big-endian 32-bit number, truncated
/// to 32 bits, then the body.
pub open spec fn spec_request_frame(method: Seq<u8>, params: Seq<u8>) -> Seq<u8> {
    be32((1 + method.len() + params.len()) as u32) + seq![method.len() as u8] + method + params
}

fn push_all_bytes(out: &mut Vec<u8>, b: &[u8])
    ensures
        final(out)@ == old(out)@ + b@,
{
    let mut i: usize = 0;
    while i < b.len()
        invariant
            i <= b.len(),
            out@ == old(out)@ + b@.take(i as int),
        decreases b.len() - i,
    {
        out.push(b[i]);
        i = i + 1;
        assert(b@.take(i as int) == b@.take(i - 1) + seq![b@[i - 1]]);
    }
    assert(b@.take(b.len() as int) == b@);
}

/// Frames an IPC request; a method name longer than 255 bytes is refused.
pub fn encode_request(method: &[u8], params: &[u8]) -> (r: core::result::Result<Vec<u8>, IpcFrameError>)
    requires
        params@.len() + 256 <= usize::MAX,
    ensures
        method@.len() > 255 ==> r == Err::<Vec<u8>, IpcFrameError>(IpcFrameError::MethodTooLong),
        method@.len() <= 255 ==> (r matches Ok(f) && f@ == spec_request_frame(method@, params@)),
{
    if method.len() > 255 {
        return Err(IpcFrameError::MethodTooLong);
    }
    let body_len: usize = 1 + method.len() + params.len();
    let n: u32 = #[verifier::truncate] (body_len as u32);
    let mut out: Vec<u8> = Vec::new();
    out.push(((n / 16777216) % 256) as u8);
    out.push(((n / 65536) % 256) as u8);
    out.push(((n / 256) % 256) as u8);
    out.push((n % 256) as u8);
    out.push(method.len() as u8);
    push_all_bytes(&mut out, method);
    push_all_bytes(&mut out, params);
    Ok(out)
}

/// The number a big-endian 4-byte header announces.
pub open spec fn be32_value(b: Seq<u8>) -> nat {
    ((b[0] as nat) * 16777216 + (b[1] as nat) * 65536 + (b[2] as nat) * 256 + (b[3] as nat)) as nat
}

proof fn lemma_be32_roundtrip(n: u32)
    ensures
        be32_value(be32(n)) == n,
        be32(n).len() == 4,
{
    let x = n as int;
    assert(((x / 16777216) % 256) * 16777216 + ((x / 65536) % 256) * 65536 + ((x / 256) % 256) * 256
        + x % 256 == x) by (nonlinear_arith)
        requires
            0 <= x < 4294967296,
    ;
}

/// A request frame decodes back into what was framed: its header announces
/// the length of the rest, then come the method's length, the method and the
/// parameters.
pub proof fn lemma_request_frame_decodes(method: Seq<u8>, params: Seq<u8>)
    requires
        method.len() <= 255,
        1 + method.len() + params.len() <= u32::MAX,
    ensures
        ({
            let f = spec_request_frame(method, params);
            &&& f.len() == 4 + 1 + method.len() + params.len()
            &&& be32_value(f.take(4)) == f.len() - 4
            &&& f[4] == method.len()
            &&& f.subrange(5, 5 + method.len() as int) == method
            &&& f.skip(5 + method.len() as int) == params
        }),
{
    let n = (1 + method.len() + params.len()) as u32;
    lemma_be32_roundtrip(n);
    let f = spec_request_frame(method, params);
    assert(f.take(4) =~= be32(n));
    assert(f.subrange(5, 5 + method.len() as int) =~= method);
    assert(f.skip(5 + method.len() as int) =~= params);
}

/// Reads the response length from its header; 0 and lengths above 16 MiB are refused.
pub fn response_length(header: [u8; 4]) -> (r: core::result::Result<usize, IpcFrameError>)
    ensures
        match r {
            Ok(n) => n as nat == be32_value(header@) && 0 < n <= MAX_IPC_RESPONSE_LEN,
            Err(e) => (be32_value(header@) == 0 || be32_value(header@) > MAX_IPC_RESPONSE_LEN)
                && e == IpcFrameError::InvalidResponseLength(be32_value(header@) as usize),
        },
{
    let n: u64 = (header[0] as u64) * 16777216 + (header[1] as u64) * 65536 + (header[2] as u64)
        * 256 + (header[3] as u64);
    if n == 0 || n > 16777216 {
        return Err(IpcFrameError::InvalidResponseLength(n as usize));
    }
    Ok(n as usize)
}

/// A response body: its first byte tells success (non-zero); the rest is the payload.
pub fn split_response(body: &[u8]) -> (r: Option<(bool, Vec<u8>)>)
    ensures
        body@.len() == 0 ==> r is None,
        body@.len() > 0 ==> (r matches Some(p) && p.0 == (body@[0] != 0) && p.1@ == body@.skip(1)),
{
    if body.len() == 0 {
        return None;
    }
    let mut payload: Vec<u8> = Vec::new();
    let mut i: usize = 1;
    while i < body.len()
        invariant
            1 <= i <= body.len(),
            payload@ == body@.subrange(1, i as int),
        decreases body.len() - i,
    {
        payload.push(body[i]);
        i = i + 1;
    }
    Some((body[0] != 0, payload))
}

/// A positional parameter of a wrapper script: the named argument it becomes
/// and the shell variable holding it.
#[derive(Debug, Clone)]
pub struct PositionalWrapperArg {
    pub name: String,
    pub shell_var: String,
    pub shell_ref: String,
}

/// Which wrapper script an IPC command gets.
#[derive(Debug, Clone)]
pub enum WrapperKind {
    /// Forwards all arguments unchanged.
    Simple,
    /// Turns positional arguments into named ones, in order.
    Positional(Vec<PositionalWrapperArg>),
    /// Reads standard input into `stdin_arg`; the first positional argument
    /// becomes `primary_arg`.
    Stdin { primary_arg: String, stdin_arg: String },
}

/// Whether `a` is the `index`-th positional parameter named `name`: shell
/// variable `arg<index>`, referenced as `$arg<index>`.
pub open spec fn positional_arg_is(a: PositionalWrapperArg, index: nat, name: Seq<char>) -> bool {
    &&& a.name@ == name
    &&& a.shell_var@ == "arg"@ + decimal(index)
    &&& a.shell_ref@ == "$arg"@ + decimal(index)
}

/// Chooses the wrapper for an IPC command with `positional_args` and an
/// optional argument fed from standard input: the standard-input wrapper when
/// both are given, the plain one without positional arguments, the positional
/// one otherwise.
pub fn wrapper_kind(positional_args: &Vec<String>, stdin_arg: Option<&str>) -> (k: WrapperKind)
    ensures
        match k {
            WrapperKind::Stdin { primary_arg, stdin_arg: s } => positional_args@.len() > 0
                && (stdin_arg matches Some(x) && s@ == x@) && primary_arg@ == positional_args@[0]@,
            WrapperKind::Simple => positional_args@.len() == 0,
            WrapperKind::Positional(args) => positional_args@.len() > 0 && stdin_arg is None
                && args@.len() == positional_args@.len() && forall|i: int|
                0 <= i < args@.len() ==> positional_arg_is(
                    #[trigger] args@[i],
                    i as nat,
                    positional_args@[i]@,
                ),
        },
{
    match stdin_arg {
        Some(s) => {
            if positional_args.len() > 0 {
                return WrapperKind::Stdin {
                    primary_arg: positional_args[0].clone(),
                    stdin_arg: String::from_str(s),
                };
            }
        },
        None => {},
    }
    if positional_args.len() == 0 {
        return WrapperKind::Simple;
    }
    let mut args: Vec<PositionalWrapperArg> = Vec::new();
    let mut i: usize = 0;
    while i < positional_args.len()
        invariant
            i <= positional_args.len(),
            args@.len() == i,
            forall|j: int|
                0 <= j < i ==> positional_arg_is(#[trigger] args@[j], j as nat, positional_args@[j]@),
        decreases positional_args.len() - i,
    {
        let digits = u64_to_decimal(i as u64);
        let mut var: Vec<char> = Vec::new();
        push_str(&mut var, "arg");
        push_str(&mut var, digits.as_str());
        let mut reference: Vec<char> = Vec::new();
        push_str(&mut reference, "$arg");
        push_str(&mut reference, digits.as_str());
        args.push(
            PositionalWrapperArg {
                name: positional_args[i].clone(),
                shell_var: string_of(&var),
                shell_ref: string_of(&reference),
            },
        );
        i = i + 1;
    }
    WrapperKind::Positional(args)
}

/// Where the IPC server listens: `tcp://<address>`, or a Unix socket path.
#[derive(Debug, Clone, PartialEq, Eq)]
pub enum IpcEndpoint {
    Tcp(String),
    Unix(String),
}

/// Reads an endpoint: a `tcp://` prefix names a TCP address, anything else a
/// Unix socket path.
pub fn parse_endpoint(endpoint: &str) -> (r: IpcEndpoint)
    ensures
        ("tcp://"@.is_prefix_of(endpoint@)) ==> (r matches IpcEndpoint::Tcp(a) && a@
            == endpoint@.skip(6)),
        !("tcp://"@.is_prefix_of(endpoint@)) ==> (r matches IpcEndpoint::Unix(p) && p@ == endpoint@),
{
    let v = chars_of(endpoint);
    proof {
        reveal_strlit("tcp://");
    }
    if v.len() >= 6 && v[0] == 't' && v[1] == 'c' && v[2] == 'p' && v[3] == ':' && v[4] == '/'
        && v[5] == '/' {
        assert("tcp://"@ =~= v@.take(6));
        let mut rest: Vec<char> = Vec::new();
        let mut i: usize = 6;
        while i < v.len()
            invariant
                6 <= i <= v.len(),
                rest@ == v@.subrange(6, i as int),
            decreases v.len() - i,
        {
            rest.push(v[i]);
            i = i + 1;
        }
        IpcEndpoint::Tcp(string_of(&rest))
    } else {
        proof {
            if "tcp://"@.is_prefix_of(endpoint@) {
                assert(v@[0] == "tcp://"@[0]);
                assert(v@[1] == "tcp://"@[1]);
                assert(v@[2] == "tcp://"@[2]);
                assert(v@[3] == "tcp://"@[3]);
                assert(v@[4] == "tcp://"@[4]);
                assert(v@[5] == "tcp://"@[5]);
            }
        }
        IpcEndpoint::Unix(String::from_str(endpoint))
    }
}

/// The payload of a successful IPC command.
#[derive(Debug, Clone)]
pub enum CommandPayload {
    /// Text, shown as it is.
    Text { content: String },
    /// A JSON value, rendered compactly and pretty-printed.
    Json { compact: String, pretty: String },
}

/// The envelope of an IPC command's reply.
#[derive(Debug, Clone)]
pub struct CommandEnvelope {
    pub ok: bool,
    pub payload: Option<CommandPayload>,
    pub error: Option<String>,
}

/// A payload of a reply that did not decode as a `CommandEnvelope`.
#[derive(Debug, Clone)]
pub enum LoosePayload {
    /// A JSON string, and its JSON rendering (quoted and escaped).
    Text { value: String, rendered: String },
    /// Any other JSON value, rendered compactly.
    Other(String),
}

/// A reply envelope with a payload of any shape.
#[derive(Debug, Clone)]
pub struct LooseCommandEnvelope {
    pub ok: bool,
    pub payload: Option<LoosePayload>,
    pub error: Option<String>,
}

/// The ways the payload of a response body decoded.
#[derive(Debug)]
pub struct ResponseDecodings {
    /// As a `CommandEnvelope`, or the decoder's message.
    pub envelope: core::result::Result<CommandEnvelope, String>,
    /// As a loose envelope, if it decoded so.
    pub loose: Option<LooseCommandEnvelope>,
    /// As a string, if it decoded so.
    pub text: Option<String>,
    /// The bytes read as UTF-8, invalid sequences replaced.
    pub lossy: String,
}

/// Whether a text is empty once surrounding white space is removed.
pub open spec fn blank(s: Seq<char>) -> bool {
    trim_ws(s).len() == 0
}

fn is_blank(s: &String) -> (b: bool)
    ensures
        b == blank(s@),
{
    let v = chars_of(s.as_str());
    trim_ws_chars(&v).len() == 0
}

/// The message of a failed command: its non-blank error, else its payload
/// (non-blank text, or JSON rendered compactly), else a fixed message.
pub open spec fn spec_envelope_error(e: CommandEnvelope) -> Seq<char> {
    match e.error {
        Some(m) if !blank(m@) => m@,
        _ => match e.payload {
            Some(CommandPayload::Text { content }) if !blank(content@) => content@,
            Some(CommandPayload::Json { compact, pretty: _ }) => compact@,
            _ => "IPC command failed"@,
        },
    }
}

/// The message of a failed command, for a loose envelope.
pub open spec fn spec_loose_envelope_error(e: LooseCommandEnvelope) -> Seq<char> {
    match e.error {
        Some(m) if !blank(m@) => m@,
        _ => match e.payload {
            Some(LoosePayload::Text { value, rendered }) => if !blank(value@) {
                value@
            } else {
                rendered@
            },
            Some(LoosePayload::Other(v)) => v@,
            None => "IPC command failed"@,
        },
    }
}

/// The message of a failed command (see `spec_envelope_error`).
pub fn command_envelope_error(e: &CommandEnvelope) -> (m: String)
    ensures
        m@ == spec_envelope_error(*e),
{
    proof {
        reveal_strlit("IPC command failed");
    }
    match &e.error {
        Some(m) => {
            if !is_blank(m) {
                return m.clone();
            }
        },
        None => {},
    }
    match &e.payload {
        Some(CommandPayload::Text { content }) => {
            if !is_blank(content) {
                return content.clone();
            }
        },
        Some(CommandPayload::Json { compact, pretty: _ }) => {
            return compact.clone();
        },
        None => {},
    }
    String::from_str("IPC command failed")
}

/// The message of a failed command, for a loose envelope (see
/// `spec_loose_envelope_error`).
pub fn loose_envelope_error(e: &LooseCommandEnvelope) -> (m: String)
    ensures
        m@ == spec_loose_envelope_error(*e),
{
    match &e.error {
        Some(m) => {
            if !is_blank(m) {
                return m.clone();
            }
        },
        None => {},
    }
    match &e.payload {
        Some(LoosePayload::Text { value, rendered }) => {
            if !is_blank(value) {
                value.clone()
            } else {
                rendered.clone()
            }
        },
        Some(LoosePayload::Other(v)) => v.clone(),
        None => String::from_str("IPC command failed"),
    }
}

/// What a successful command's envelope shows: an error when it is not ok,
/// else nothing, its text, or its JSON pretty-printed.
pub open spec fn spec_render_success(e: CommandEnvelope) -> core::result::Result<Seq<char>, Seq<char>> {
    if !e.ok {
        Err(spec_envelope_error(e))
    } else {
        match e.payload {
            None => Ok(Seq::empty()),
            Some(CommandPayload::Text { content }) => Ok(content@),
            Some(CommandPayload::Json { compact: _, pretty }) => Ok(pretty@),
        }
    }
}

/// An error whose message is `m`.
pub open spec fn message_error(e: CliError, m: Seq<char>) -> bool {
    e matches CliError::Message { message } && message@ == m
}

/// What a successful command's envelope shows (see `spec_render_success`).
pub fn render_success_response(e: &CommandEnvelope) -> (r: core::result::Result<String, CliError>)
    ensures
        match (r, spec_render_success(*e)) {
            (Ok(s), Ok(t)) => s@ == t,
            (Err(err), Err(t)) => message_error(err, t),
            _ => false,
        },
{
    if !e.ok {
        return Err(CliError::Message { message: command_envelope_error(e) });
    }
    match &e.payload {
        None => Ok(String::new()),
        Some(CommandPayload::Text { content }) => Ok(content.clone()),
        Some(CommandPayload::Json { compact: _, pretty }) => Ok(pretty.clone()),
    }
}

/// The outcome of an IPC exchange, from the success byte of the response and
/// the decodings of its payload. A reply flagged successful shows its
/// envelope; one that is not an envelope is read as a loose envelope (an
/// error or a failed command is reported), then as a string (reported as an
/// error), else the decoding failure is reported. A reply flagged failed
/// reports its string, or its bytes read as UTF-8.
pub open spec fn spec_interpret_response(success: bool, d: ResponseDecodings) -> core::result::Result<
    Seq<char>,
    Seq<char>,
> {
    if success {
        match d.envelope {
            Ok(e) => spec_render_success(e),
            Err(decode_error) => {
                let loose_outcome: Option<Seq<char>> = match d.loose {
                    Some(l) => if !l.ok {
                        Some(spec_loose_envelope_error(l))
                    } else {
                        match l.error {
                            Some(m) => Some(m@),
                            None => match l.payload {
                                Some(LoosePayload::Text { value, rendered: _ }) => Some(value@),
                                _ => None,
                            },
                        }
                    },
                    None => None,
                };
                match loose_outcome {
                    Some(m) => Err(m),
                    None => match d.text {
                        Some(t) => Err(t@),
                        None => Err("failed to decode IPC response: "@ + decode_error@),
                    },
                }
            },
        }
    } else {
        match d.text {
            Some(t) => Err(t@),
            None => Err(d.lossy@),
        }
    }
}

/// The outcome of an IPC exchange (see `spec_interpret_response`); failures
/// carry their message.
pub fn interpret_response(success: bool, d: &ResponseDecodings) -> (r: core::result::Result<
    String,
    CliError,
>)
    ensures
        match (r, spec_interpret_response(success, *d)) {
            (Ok(s), Ok(t)) => s@ == t,
            (Err(err), Err(t)) => message_error(err, t),
            _ => false,
        },
{
    if !success {
        return match &d.text {
            Some(t) => Err(CliError::Message { message: t.clone() }),
            None => Err(CliError::Message { message: d.lossy.clone() }),
        };
    }
    match &d.envelope {
        Ok(e) => render_success_response(e),
        Err(decode_error) => {
            match &d.loose {
                Some(l) => {
                    if !l.ok {
                        return Err(CliError::Message { message: loose_envelope_error(l) });
                    }
                    match &l.error {
                        Some(m) => {
                            return Err(CliError::Message { message: m.clone() });
                        },
                        None => {},
                    }
                    match &l.payload {
                        Some(LoosePayload::Text { value, rendered: _ }) => {
                            return Err(CliError::Message { message: value.clone() });
                        },
                        _ => {},
                    }
                },
                None => {},
            }
            match &d.text {
                Some(t) => Err(CliError::Message { message: t.clone() }),
                None => {
                    let mut out: Vec<char> = Vec::new();
                    push_str(&mut out, "failed to decode IPC response: ");
                    push_str(&mut out, decode_error.as_str());
                    Err(CliError::Message { message: string_of(&out) })
                },
            }
        },
    }
}

/// The error of a response length the client refuses.
pub fn response_length_error(e: IpcFrameError) -> (r: CliError)
    ensures
        match e {
            IpcFrameError::InvalidResponseLength(n) => r == CliError::InvalidIpcResponseLength {
                length: n,
            },
            IpcFrameError::MethodTooLong => message_error(
                r,
                "method name too long (max 255 bytes)"@,
            ),
        },
{
    match e {
        IpcFrameError::InvalidResponseLength(n) => CliError::InvalidIpcResponseLength { length: n },
        IpcFrameError::MethodTooLong => CliError::Message {
            message: String::from_str("method name too long (max 255 bytes)"),
        },
    }
}

} // verus!
