use vstd::prelude::*;

verus! {

/// Carriage return, the optional byte before a line terminator.
pub const CR: u8 = 13;

/// Line feed, the line terminator.
pub const LF: u8 = 10;

/// Capacity of the ingress buffer, in bytes.
pub const RX_CAPACITY: usize = 256;

/// Most data lines kept for one response; later ones are dropped.
pub const MAX_RESPONSE_LINES: usize = 4;

/// Capacity of the unsolicited message queue.
pub const URC_CAPACITY: usize = 8;

/// A command to the radio module.
#[derive(Clone, Copy, Debug, PartialEq, Eq, Structural)]
pub enum Command {
    /// AT attention command (`AT`), can be used to check whether everything is
    /// working as intended.
    At,
    /// Restart module (`AT+RST`).
    Restart,
    /// Get firmware version (`AT+GMR`).
    GetFirmwareVersion,
}

/// A message that the module sends without being asked.
#[derive(Clone, Copy, Debug, PartialEq, Eq, Structural)]
pub enum Unsolicited {
    /// `ready`: the module has (re)started.
    Ready,
    /// `WIFI CONNECTED`: the module has associated with the network.
    WifiConnected,
    /// `WIFI GOT IP`: the module has been given an address.
    WifiGotIp,
    /// `WIFI DISCONNECT`: the link is lost.
    WifiDisconnected,
}

/// The answer to a command.
#[derive(Debug)]
pub enum Response {
    /// Response to `Command::At` and `Command::Restart`.
    Ready,
    /// Firmware version information: the first three data lines.
    FirmwareVersion { at_version: Vec<u8>, sdk_version: Vec<u8>, compile_time: Vec<u8> },
    /// A response with no data line where the command expects some.
    Empty,
    /// The module answered `ERROR`.
    Error,
}

/// A `Response` with its byte strings as sequences.
pub enum ResponseView {
    Ready,
    FirmwareVersion { at_version: Seq<u8>, sdk_version: Seq<u8>, compile_time: Seq<u8> },
    Empty,
    Error,
}

impl View for Response {
    type V = ResponseView;

    open spec fn view(&self) -> ResponseView {
        match self {
            Response::Ready => ResponseView::Ready,
            Response::FirmwareVersion { at_version, sdk_version, compile_time } => ResponseView::FirmwareVersion {
                at_version: at_version@,
                sdk_version: sdk_version@,
                compile_time: compile_time@,
            },
            Response::Empty => ResponseView::Empty,
            Response::Error => ResponseView::Error,
        }
    }
}

/// Failures of the command slot.
#[derive(Clone, Copy, Debug, PartialEq, Eq, Structural)]
pub enum AtError {
    /// A command is already waiting for its response.
    Busy,
    /// No response came before the deadline.
    Timeout,
}

/// The text of a command, without terminator.
pub open spec fn cmd_text(c: Command) -> Seq<u8> {
    match c {
        Command::At => seq![65u8, 84u8],
        Command::Restart => seq![65u8, 84u8, 43u8, 82u8, 83u8, 84u8],
        Command::GetFirmwareVersion => seq![65u8, 84u8, 43u8, 71u8, 77u8, 82u8],
    }
}

/// `OK`, the final line of a successful response.
pub open spec fn ok_line() -> Seq<u8> {
    seq![79u8, 75u8]
}

/// `ERROR`, the final line of a failed response.
pub open spec fn error_line() -> Seq<u8> {
    seq![69u8, 82u8, 82u8, 79u8, 82u8]
}

pub open spec fn crlf() -> Seq<u8> {
    seq![CR, LF]
}

/// The line by which the module announces an unsolicited message.
pub open spec fn urc_text(u: Unsolicited) -> Seq<u8> {
    match u {
        Unsolicited::Ready => seq![114u8, 101u8, 97u8, 100u8, 121u8],
        Unsolicited::WifiConnected => seq![
            87u8, 73u8, 70u8, 73u8, 32u8, 67u8, 79u8, 78u8, 78u8, 69u8, 67u8, 84u8, 69u8, 68u8,
        ],
        Unsolicited::WifiGotIp => seq![87u8, 73u8, 70u8, 73u8, 32u8, 71u8, 79u8, 84u8, 32u8, 73u8, 80u8],
        Unsolicited::WifiDisconnected => seq![
            87u8, 73u8, 70u8, 73u8, 32u8, 68u8, 73u8, 83u8, 67u8, 79u8, 78u8, 78u8, 69u8, 67u8, 84u8,
        ],
    }
}

/// The unsolicited message that a line announces, if any.
pub open spec fn urc_of(l: Seq<u8>) -> Option<Unsolicited> {
    if l == urc_text(Unsolicited::Ready) {
        Some(Unsolicited::Ready)
    } else if l == urc_text(Unsolicited::WifiConnected) {
        Some(Unsolicited::WifiConnected)
    } else if l == urc_text(Unsolicited::WifiGotIp) {
        Some(Unsolicited::WifiGotIp)
    } else if l == urc_text(Unsolicited::WifiDisconnected) {
        Some(Unsolicited::WifiDisconnected)
    } else {
        None
    }
}

/// Line `i` of a response, or an empty line where there is none.
pub open spec fn line_at(lines: Seq<Seq<u8>>, i: int) -> Seq<u8> {
    if 0 <= i < lines.len() { lines[i] } else { Seq::empty() }
}

/// What a command's grammar makes of the data lines before `OK`.
pub open spec fn response_of(c: Command, lines: Seq<Seq<u8>>) -> ResponseView {
    match c {
        Command::GetFirmwareVersion => if lines.len() == 0 {
            ResponseView::Empty
        } else {
            ResponseView::FirmwareVersion {
                at_version: line_at(lines, 0),
                sdk_version: line_at(lines, 1),
                compile_time: line_at(lines, 2),
            }
        },
        _ => ResponseView::Ready,
    }
}

pub open spec fn lines_view(v: Seq<Vec<u8>>) -> Seq<Seq<u8>> {
    v.map_values(|l: Vec<u8>| l@)
}

fn bytes_equal(a: &Vec<u8>, b: &Vec<u8>) -> (r: bool)
    ensures
        r == (a@ == b@),
{
    if a.len() != b.len() {
        return false;
    }
    let mut i: usize = 0;
    while i < a.len()
        invariant
            a@.len() == b@.len(),
            i <= a.len(),
            forall|j: int| 0 <= j < i ==> a@[j] == b@[j],
        decreases a.len() - i,
    {
        if a[i] != b[i] {
            return false;
        }
        i = i + 1;
    }
    proof {
        assert(a@ =~= b@);
    }
    true
}

fn ok_bytes() -> (r: Vec<u8>)
    ensures
        r@ == ok_line(),
{
    vec![79u8, 75u8]
}

fn error_bytes() -> (r: Vec<u8>)
    ensures
        r@ == error_line(),
{
    vec![69u8, 82u8, 82u8, 79u8, 82u8]
}

fn unsolicited_text(u: Unsolicited) -> (r: Vec<u8>)
    ensures
        r@ == urc_text(u),
{
    match u {
        Unsolicited::Ready => vec![114u8, 101u8, 97u8, 100u8, 121u8],
        Unsolicited::WifiConnected => vec![
            87u8, 73u8, 70u8, 73u8, 32u8, 67u8, 79u8, 78u8, 78u8, 69u8, 67u8, 84u8, 69u8, 68u8,
        ],
        Unsolicited::WifiGotIp => vec![87u8, 73u8, 70u8, 73u8, 32u8, 71u8, 79u8, 84u8, 32u8, 73u8, 80u8],
        Unsolicited::WifiDisconnected => vec![
            87u8, 73u8, 70u8, 73u8, 32u8, 68u8, 73u8, 83u8, 67u8, 79u8, 78u8, 78u8, 69u8, 67u8, 84u8,
        ],
    }
}

fn copy_bytes(v: &Vec<u8>) -> (r: Vec<u8>)
    ensures
        r@ == v@,
{
    let mut r: Vec<u8> = Vec::new();
    let mut i: usize = 0;
    while i < v.len()
        invariant
            i <= v.len(),
            r@ == v@.take(i as int),
        decreases v.len() - i,
    {
        r.push(v[i]);
        i = i + 1;
        proof {
            assert(r@ =~= v@.take(i as int));
        }
    }
    proof {
        assert(v@.take(v.len() as int) =~= v@);
    }
    r
}

impl Command {
    /// The command text, without terminator.
    pub fn get_cmd(&self) -> (r: Vec<u8>)
        ensures
            r@ == cmd_text(*self),
    {
        match self {
            Command::At => vec![65u8, 84u8],
            Command::Restart => vec![65u8, 84u8, 43u8, 82u8, 83u8, 84u8],
            Command::GetFirmwareVersion => vec![65u8, 84u8, 43u8, 71u8, 77u8, 82u8],
        }
    }

    /// The command as bytes, without terminator.
    pub fn get_bytes(&self) -> (r: Vec<u8>)
        ensures
            r@ == cmd_text(*self),
    {
        self.get_cmd()
    }

    /// Parse the data lines that came before `OK` by this command's grammar.
    pub fn parse_resp(&self, response_lines: &Vec<Vec<u8>>) -> (r: Response)
        ensures
            r@ == response_of(*self, lines_view(response_lines@)),
    {
        match self {
            Command::GetFirmwareVersion => {
                let n = response_lines.len();
                if n == 0 {
                    Response::Empty
                } else {
                    let at_version = copy_bytes(&response_lines[0]);
                    let sdk_version = if n > 1 { copy_bytes(&response_lines[1]) } else { Vec::new() };
                    let compile_time = if n > 2 { copy_bytes(&response_lines[2]) } else { Vec::new() };
                    proof {
                        assert(sdk_version@ =~= line_at(lines_view(response_lines@), 1));
                        assert(compile_time@ =~= line_at(lines_view(response_lines@), 2));
                    }
                    Response::FirmwareVersion { at_version, sdk_version, compile_time }
                }
            },
            _ => Response::Ready,
        }
    }

    /// The unsolicited message that a line announces, if any.
    pub fn parse_unsolicited(response_line: &Vec<u8>) -> (r: Option<Unsolicited>)
        ensures
            r == urc_of(response_line@),
    {
        if bytes_equal(response_line, &unsolicited_text(Unsolicited::Ready)) {
            Some(Unsolicited::Ready)
        } else if bytes_equal(response_line, &unsolicited_text(Unsolicited::WifiConnected)) {
            Some(Unsolicited::WifiConnected)
        } else if bytes_equal(response_line, &unsolicited_text(Unsolicited::WifiGotIp)) {
            Some(Unsolicited::WifiGotIp)
        } else if bytes_equal(response_line, &unsolicited_text(Unsolicited::WifiDisconnected)) {
            Some(Unsolicited::WifiDisconnected)
        } else {
            None
        }
    }
}

/// The abstract state of the link.
pub struct LinkView {
    /// Bytes received and not yet digested.
    pub rx: Seq<u8>,
    /// Bytes refused since creation because the buffer was full (saturating).
    pub dropped_bytes: int,
    /// The command waiting for its response.
    pub pending: Option<Command>,
    /// The data lines of the pending command's response so far.
    pub lines: Seq<Seq<u8>>,
    /// Unsolicited messages not yet taken, oldest first.
    pub urcs: Seq<Unsolicited>,
    /// Unsolicited messages dropped since creation to make room (saturating).
    pub dropped_urcs: int,
}

impl LinkView {
    pub open spec fn wf(self) -> bool {
        &&& self.rx.len() <= RX_CAPACITY
        &&& self.lines.len() <= MAX_RESPONSE_LINES
        &&& self.urcs.len() <= URC_CAPACITY
        &&& self.pending is None ==> self.lines.len() == 0
        &&& 0 <= self.dropped_bytes <= u64::MAX
        &&& 0 <= self.dropped_urcs <= u64::MAX
    }
}

pub open spec fn sat_add(a: int, n: int) -> int {
    if a + n > u64::MAX { u64::MAX as int } else { a + n }
}

/// How many of `n` offered bytes fit in the buffer.
pub open spec fn accepted_of(s: LinkView, n: int) -> int {
    let room = RX_CAPACITY - s.rx.len();
    if n <= room { n } else { room }
}

/// The link after bytes arrive: what fits is appended, the rest is counted as dropped.
pub open spec fn write_spec(s: LinkView, bytes: Seq<u8>) -> LinkView {
    let n = accepted_of(s, bytes.len() as int);
    LinkView { rx: s.rx + bytes.take(n), dropped_bytes: sat_add(s.dropped_bytes, bytes.len() - n), ..s }
}

/// Sending a command: refused while one is pending, else the slot is taken
/// and the command's bytes are to be written to the transport.
pub open spec fn send_spec(s: LinkView, c: Command) -> (LinkView, Result<Seq<u8>, AtError>) {
    if s.pending is Some {
        (s, Err(AtError::Busy))
    } else {
        (LinkView { pending: Some(c), lines: Seq::empty(), ..s }, Ok(cmd_text(c) + crlf()))
    }
}

/// The deadline of the pending command passed: the slot is freed.
pub open spec fn expire_spec(s: LinkView) -> (LinkView, Option<AtError>) {
    if s.pending is Some {
        (LinkView { pending: None, lines: Seq::empty(), ..s }, Some(AtError::Timeout))
    } else {
        (s, None)
    }
}

/// Queue an unsolicited message, dropping the oldest when the queue is full.
pub open spec fn push_urc(s: LinkView, u: Unsolicited) -> LinkView {
    if s.urcs.len() < URC_CAPACITY {
        LinkView { urcs: s.urcs.push(u), ..s }
    } else {
        LinkView { urcs: s.urcs.drop_first().push(u), dropped_urcs: sat_add(s.dropped_urcs, 1), ..s }
    }
}

/// What one complete line (terminator removed) does to the link, and the
/// response it completes, if any.
pub open spec fn on_line(s: LinkView, l: Seq<u8>) -> (LinkView, Option<ResponseView>) {
    if l.len() == 0 {
        (s, None)
    } else {
        match s.pending {
            Some(c) => if l == ok_line() {
                (LinkView { pending: None, lines: Seq::empty(), ..s }, Some(response_of(c, s.lines)))
            } else if l == error_line() {
                (LinkView { pending: None, lines: Seq::empty(), ..s }, Some(ResponseView::Error))
            } else if l == cmd_text(c) {
                (s, None)
            } else {
                match urc_of(l) {
                    Some(u) => (push_urc(s, u), None),
                    None => if s.lines.len() < MAX_RESPONSE_LINES {
                        (LinkView { lines: s.lines.push(l), ..s }, None)
                    } else {
                        (s, None)
                    },
                }
            },
            None => match urc_of(l) {
                Some(u) => (push_urc(s, u), None),
                None => (s, None),
            },
        }
    }
}

/// A digest in progress: the link, the line being gathered, the response so far.
pub struct Scan {
    pub link: LinkView,
    pub line: Seq<u8>,
    pub resp: Option<ResponseView>,
}

pub open spec fn strip_cr(l: Seq<u8>) -> Seq<u8> {
    if l.len() > 0 && l.last() == CR { l.drop_last() } else { l }
}

pub open spec fn scan_byte(s: Scan, b: u8) -> Scan {
    if b == LF {
        let (k, r) = on_line(s.link, strip_cr(s.line));
        Scan { link: k, line: Seq::empty(), resp: if r is Some { r } else { s.resp } }
    } else {
        Scan { line: s.line.push(b), ..s }
    }
}

pub open spec fn scan(s: Scan, bytes: Seq<u8>) -> Scan
    decreases bytes.len(),
{
    if bytes.len() == 0 {
        s
    } else {
        scan_byte(scan(s, bytes.drop_last()), bytes.last())
    }
}

/// A digest: every complete line in the buffer is handled in order; an
/// unfinished line stays, unless it fills the whole buffer, when it is
/// discarded and its bytes are counted as dropped.
pub open spec fn digest_spec(s: LinkView) -> (LinkView, Option<ResponseView>) {
    let e = scan(Scan { link: s, line: Seq::empty(), resp: None }, s.rx);
    if e.line.len() < RX_CAPACITY {
        (LinkView { rx: e.line, ..e.link }, e.resp)
    } else {
        (
            LinkView {
                rx: Seq::empty(),
                dropped_bytes: sat_add(e.link.dropped_bytes, e.line.len() as int),
                ..e.link
            },
            e.resp,
        )
    }
}

pub open spec fn response_opt(r: Option<Response>) -> Option<ResponseView> {
    match r {
        Some(x) => Some(x@),
        None => None,
    }
}

pub open spec fn sent_view(r: Result<Vec<u8>, AtError>) -> Result<Seq<u8>, AtError> {
    match r {
        Ok(v) => Ok(v@),
        Err(e) => Err(e),
    }
}

/// The receiving side and the command slot of a link to an AT command module.
pub struct AtLink {
    rx: Vec<u8>,
    dropped_bytes: u64,
    pending: Option<Command>,
    lines: Vec<Vec<u8>>,
    urcs: Vec<Unsolicited>,
    dropped_urcs: u64,
}

impl View for AtLink {
    type V = LinkView;

    closed spec fn view(&self) -> LinkView {
        LinkView {
            rx: self.rx@,
            dropped_bytes: self.dropped_bytes as int,
            pending: self.pending,
            lines: lines_view(self.lines@),
            urcs: self.urcs@,
            dropped_urcs: self.dropped_urcs as int,
        }
    }
}

impl AtLink {
    /// An idle link with empty buffers.
    pub fn new() -> (r: AtLink)
        ensures
            r@.wf(),
            r@.rx.len() == 0,
            r@.pending is None,
            r@.urcs.len() == 0,
            r@.dropped_bytes == 0,
            r@.dropped_urcs == 0,
    {
        let r = AtLink {
            rx: Vec::new(),
            dropped_bytes: 0,
            pending: None,
            lines: Vec::new(),
            urcs: Vec::new(),
            dropped_urcs: 0,
        };
        proof {
            assert(r@.lines =~= Seq::<Seq<u8>>::empty());
        }
        r
    }

    /// Whether a command is waiting for its response.
    pub fn is_busy(&self) -> (r: bool)
        ensures
            r == self@.pending is Some,
    {
        self.pending.is_some()
    }

    /// Bytes refused so far because the buffer was full.
    pub fn dropped_bytes(&self) -> (r: u64)
        ensures
            r == self@.dropped_bytes,
    {
        self.dropped_bytes
    }

    /// Unsolicited messages dropped so far to make room for newer ones.
    pub fn dropped_unsolicited(&self) -> (r: u64)
        ensures
            r == self@.dropped_urcs,
    {
        self.dropped_urcs
    }

    /// Append received bytes to the buffer; returns how many fit. The rest
    /// is dropped and counted, never written over unread bytes.
    pub fn write(&mut self, bytes: &[u8]) -> (accepted: usize)
        requires
            old(self)@.wf(),
        ensures
            final(self)@.wf(),
            final(self)@ == write_spec(old(self)@, bytes@),
            accepted == accepted_of(old(self)@, bytes@.len() as int),
    {
        let ghost s0 = self@;
        let room = RX_CAPACITY - self.rx.len();
        let n = if bytes.len() <= room { bytes.len() } else { room };
        let mut i: usize = 0;
        while i < n
            invariant
                n <= bytes@.len(),
                i <= n,
                n == accepted_of(s0, bytes@.len() as int),
                self.rx@ == s0.rx + bytes@.take(i as int),
                self.dropped_bytes == s0.dropped_bytes,
                self.pending == s0.pending,
                lines_view(self.lines@) == s0.lines,
                self.urcs@ == s0.urcs,
                self.dropped_urcs == s0.dropped_urcs,
            decreases n - i,
        {
            self.rx.push(bytes[i]);
            i = i + 1;
            proof {
                assert(self.rx@ =~= s0.rx + bytes@.take(i as int));
            }
        }
        let lost = (bytes.len() - n) as u64;
        if self.dropped_bytes > u64::MAX - lost {
            self.dropped_bytes = u64::MAX;
        } else {
            self.dropped_bytes = self.dropped_bytes + lost;
        }
        n
    }

    /// Take the command slot and return the bytes to write to the transport;
    /// `Busy` while a command is pending.
    pub fn send(&mut self, command: Command) -> (r: Result<Vec<u8>, AtError>)
        requires
            old(self)@.wf(),
        ensures
            final(self)@.wf(),
            (final(self)@, sent_view(r)) == send_spec(old(self)@, command),
    {
        if self.pending.is_some() {
            return Err(AtError::Busy);
        }
        self.pending = Some(command);
        self.lines = Vec::new();
        proof {
            assert(lines_view(self.lines@) =~= Seq::<Seq<u8>>::empty());
        }
        let mut bytes = command.get_bytes();
        bytes.push(CR);
        bytes.push(LF);
        proof {
            assert(bytes@ =~= cmd_text(command) + crlf());
        }
        Ok(bytes)
    }

    /// The deadline of the pending command has passed: free the slot and
    /// return `Timeout`; nothing happens when no command is pending.
    pub fn expire(&mut self) -> (r: Option<AtError>)
        requires
            old(self)@.wf(),
        ensures
            final(self)@.wf(),
            (final(self)@, r) == expire_spec(old(self)@),
    {
        if self.pending.is_none() {
            return None;
        }
        self.pending = None;
        self.lines = Vec::new();
        proof {
            assert(lines_view(self.lines@) =~= Seq::<Seq<u8>>::empty());
        }
        Some(AtError::Timeout)
    }

    /// Take the oldest unsolicited message.
    pub fn pop_unsolicited(&mut self) -> (r: Option<Unsolicited>)
        requires
            old(self)@.wf(),
        ensures
            final(self)@.wf(),
            old(self)@.urcs.len() == 0 ==> r is None && final(self)@ == old(self)@,
            old(self)@.urcs.len() > 0 ==> r == Some(old(self)@.urcs[0])
                && final(self)@ == (LinkView { urcs: old(self)@.urcs.drop_first(), ..old(self)@ }),
    {
        if self.urcs.len() == 0 {
            return None;
        }
        let u = self.urcs.remove(0);
        proof {
            assert(self.urcs@ =~= old(self)@.urcs.drop_first());
        }
        Some(u)
    }

    fn push_unsolicited(&mut self, u: Unsolicited)
        requires
            old(self)@.wf(),
        ensures
            final(self)@.wf(),
            final(self)@ == push_urc(old(self)@, u),
    {
        if self.urcs.len() >= URC_CAPACITY {
            self.urcs.remove(0);
            if self.dropped_urcs < u64::MAX {
                self.dropped_urcs = self.dropped_urcs + 1;
            }
        }
        self.urcs.push(u);
        proof {
            if old(self)@.urcs.len() >= URC_CAPACITY {
                assert(self.urcs@ =~= old(self)@.urcs.drop_first().push(u));
            }
        }
    }

    fn handle_line(&mut self, line: &Vec<u8>) -> (r: Option<Response>)
        requires
            old(self)@.wf(),
        ensures
            final(self)@.wf(),
            (final(self)@, response_opt(r)) == on_line(old(self)@, line@),
    {
        if line.len() == 0 {
            return None;
        }
        match self.pending {
            Some(c) => {
                if bytes_equal(line, &ok_bytes()) {
                    let resp = c.parse_resp(&self.lines);
                    self.pending = None;
                    self.lines = Vec::new();
                    proof {
                        assert(lines_view(self.lines@) =~= Seq::<Seq<u8>>::empty());
                    }
                    Some(resp)
                } else if bytes_equal(line, &error_bytes()) {
                    self.pending = None;
                    self.lines = Vec::new();
                    proof {
                        assert(lines_view(self.lines@) =~= Seq::<Seq<u8>>::empty());
                    }
                    Some(Response::Error)
                } else if bytes_equal(line, &c.get_cmd()) {
                    None
                } else {
                    match Command::parse_unsolicited(line) {
                        Some(u) => {
                            self.push_unsolicited(u);
                            None
                        },
                        None => {
                            if self.lines.len() < MAX_RESPONSE_LINES {
                                self.lines.push(copy_bytes(line));
                                proof {
                                    assert(lines_view(self.lines@) =~= old(self)@.lines.push(line@));
                                }
                            }
                            None
                        },
                    }
                }
            },
            None => {
                match Command::parse_unsolicited(line) {
                    Some(u) => {
                        self.push_unsolicited(u);
                        None
                    },
                    None => None,
                }
            },
        }
    }

    /// Handle every complete line in the buffer, in order, and return the
    /// response that one of them completed, if any.
    pub fn digest(&mut self) -> (r: Option<Response>)
        requires
            old(self)@.wf(),
        ensures
            final(self)@.wf(),
            (final(self)@, response_opt(r)) == digest_spec(old(self)@),
    {
        let ghost s0 = self@;
        let ghost init = Scan { link: s0, line: Seq::empty(), resp: None };
        let mut line: Vec<u8> = Vec::new();
        let mut resp: Option<Response> = None;
        let n = self.rx.len();
        let mut i: usize = 0;
        while i < n
            invariant
                n == self.rx@.len(),
                self.rx@ == s0.rx,
                i <= n,
                self@.wf(),
                line@.len() <= i,
                scan(init, s0.rx.take(i as int)) == (Scan { link: self@, line: line@, resp: response_opt(resp) }),
            decreases n - i,
        {
            let b = self.rx[i];
            proof {
                assert(s0.rx.take(i + 1).drop_last() =~= s0.rx.take(i as int));
            }
            if b == LF {
                if line.len() > 0 && line[line.len() - 1] == CR {
                    line.pop();
                }
                proof {
                    assert(line@ =~= strip_cr(scan(init, s0.rx.take(i as int)).line));
                }
                let r = self.handle_line(&line);
                if r.is_some() {
                    resp = r;
                }
                line = Vec::new();
            } else {
                line.push(b);
            }
            i = i + 1;
            proof {
                assert(line@ =~= scan(init, s0.rx.take(i as int)).line);
            }
        }
        proof {
            assert(s0.rx.take(n as int) =~= s0.rx);
        }
        if line.len() < RX_CAPACITY {
            self.rx = line;
        } else {
            let lost = line.len() as u64;
            if self.dropped_bytes > u64::MAX - lost {
                self.dropped_bytes = u64::MAX;
            } else {
                self.dropped_bytes = self.dropped_bytes + lost;
            }
            self.rx = Vec::new();
        }
        resp
    }
}

pub open spec fn no_lf(x: Seq<u8>) -> bool {
    forall|i: int| 0 <= i < x.len() ==> x[i] != LF
}

proof fn lemma_scan_split(s: Scan, x: Seq<u8>, y: Seq<u8>)
    ensures
        scan(s, x + y) == scan(scan(s, x), y),
    decreases y.len(),
{
    if y.len() == 0 {
        assert(x + y =~= x);
    } else {
        assert((x + y).drop_last() =~= x + y.drop_last());
        assert((x + y).last() == y.last());
        lemma_scan_split(s, x, y.drop_last());
    }
}

proof fn lemma_scan_no_lf(s: Scan, x: Seq<u8>)
    requires
        no_lf(x),
    ensures
        scan(s, x) == (Scan { line: s.line + x, ..s }),
    decreases x.len(),
{
    if x.len() == 0 {
        assert(s.line + x =~= s.line);
    } else {
        assert(no_lf(x.drop_last()));
        lemma_scan_no_lf(s, x.drop_last());
        assert(s.line + x.drop_last().push(x.last()) =~= s.line + x);
        assert(x.drop_last().push(x.last()) =~= x);
    }
}

proof fn lemma_scan_push(s: Scan, x: Seq<u8>, b: u8)
    ensures
        scan(s, x.push(b)) == scan_byte(scan(s, x), b),
{
    assert(x.push(b).drop_last() =~= x);
}

proof fn lemma_scan_line(s: Scan, bytes: Seq<u8>)
    requires
        no_lf(s.line),
    ensures
        no_lf(scan(s, bytes).line),
        scan(s, bytes).line.len() <= s.line.len() + bytes.len(),
    decreases bytes.len(),
{
    if bytes.len() > 0 {
        lemma_scan_line(s, bytes.drop_last());
        let e0 = scan(s, bytes.drop_last());
        if bytes.last() != LF {
            assert(no_lf(e0.line.push(bytes.last())));
        } else {
            assert(no_lf(Seq::<u8>::empty()));
        }
    }
}

proof fn lemma_scan_dropped(s: Scan, bytes: Seq<u8>)
    ensures
        scan(s, bytes).link.dropped_bytes == s.link.dropped_bytes,
    decreases bytes.len(),
{
    if bytes.len() > 0 {
        lemma_scan_dropped(s, bytes.drop_last());
        let e0 = scan(s, bytes.drop_last());
        if let Some(u) = urc_of(strip_cr(e0.line)) {
            assert(push_urc(e0.link, u).dropped_bytes == e0.link.dropped_bytes);
        }
    }
}

proof fn lemma_on_line_frame(k: LinkView, r: Seq<u8>, l: Seq<u8>)
    ensures
        on_line(LinkView { rx: r, ..k }, l) == (LinkView { rx: r, ..on_line(k, l).0 }, on_line(k, l).1),
{
    let k2 = LinkView { rx: r, ..k };
    if let Some(u) = urc_of(l) {
        assert(push_urc(k2, u) == LinkView { rx: r, ..push_urc(k, u) });
    }
}

/// What the buffer holds and the response found so far do not change how
/// the rest of a digest goes.
proof fn lemma_scan_frame(s: Scan, r: Seq<u8>, bytes: Seq<u8>)
    ensures
        ({
            let e = scan(s, bytes);
            let f = scan(Scan { link: LinkView { rx: r, ..s.link }, line: s.line, resp: None }, bytes);
            &&& f.link == (LinkView { rx: r, ..e.link })
            &&& f.line == e.line
            &&& e.resp == if f.resp is Some { f.resp } else { s.resp }
        }),
    decreases bytes.len(),
{
    if bytes.len() > 0 {
        lemma_scan_frame(s, r, bytes.drop_last());
        let e0 = scan(s, bytes.drop_last());
        lemma_on_line_frame(e0.link, r, strip_cr(e0.line));
    }
}

/// Bytes that arrive in two writes are buffered as if they came in one,
/// whether or not they fit, so the digest that follows gives the same link
/// and the same response.
pub proof fn lemma_split_write(s: LinkView, a: Seq<u8>, b: Seq<u8>)
    requires
        s.wf(),
    ensures
        write_spec(write_spec(s, a), b) == write_spec(s, a + b),
        digest_spec(write_spec(write_spec(s, a), b)) == digest_spec(write_spec(s, a + b)),
{
    let room = RX_CAPACITY - s.rx.len();
    let n1 = accepted_of(s, a.len() as int);
    let s1 = write_spec(s, a);
    let n2 = accepted_of(s1, b.len() as int);
    let n = accepted_of(s, (a + b).len() as int);
    if a.len() <= room {
        assert(a.take(n1) =~= a);
        assert(n == a.len() + n2);
        assert((a + b).take(n) =~= a + b.take(n2));
    } else {
        assert(n2 == 0);
        assert(b.take(0) =~= Seq::<u8>::empty());
        assert((a + b).take(n) =~= a.take(n1));
    }
    assert(s.rx + a.take(n1) + b.take(n2) =~= s.rx + (a + b).take(n));
}

/// A digest between two writes of bytes that fit the buffer changes nothing
/// in the end: the link after writing `a`, digesting, writing `b` and
/// digesting is the link after writing `a + b` and digesting, and the one
/// response of the single digest is the one of the two digests (the later
/// one, when both give one).
pub proof fn lemma_split_write_across_digest(s: LinkView, a: Seq<u8>, b: Seq<u8>)
    requires
        s.wf(),
        s.rx.len() + a.len() < RX_CAPACITY,
        s.rx.len() + a.len() + b.len() <= RX_CAPACITY,
    ensures
        ({
            let (s1, r1) = digest_spec(write_spec(s, a));
            let (s2, r2) = digest_spec(write_spec(s1, b));
            let (t, rt) = digest_spec(write_spec(s, a + b));
            &&& s2 == t
            &&& rt == if r2 is Some { r2 } else { r1 }
        }),
{
    let w = write_spec(s, a);
    assert(a.take(a.len() as int) =~= a);
    let x = w.rx;
    let init = Scan { link: w, line: Seq::empty(), resp: None };
    let e1 = scan(init, x);
    assert(no_lf(Seq::<u8>::empty()));
    lemma_scan_line(init, x);
    lemma_scan_dropped(init, x);
    let p = e1.line;
    let s1 = digest_spec(w).0;
    assert(s1 == LinkView { rx: p, ..e1.link });
    let w1 = write_spec(s1, b);
    assert(b.take(b.len() as int) =~= b);
    assert(w1 == LinkView { rx: p + b, ..e1.link });
    let t0 = Scan { link: w1, line: Seq::empty(), resp: None };
    lemma_scan_split(t0, p, b);
    lemma_scan_no_lf(t0, p);
    assert(Seq::<u8>::empty() + p =~= p);
    let wc = write_spec(s, a + b);
    assert((a + b).take((a + b).len() as int) =~= a + b);
    assert(wc.rx =~= x + b);
    assert(wc == LinkView { rx: x + b, ..w });
    let c0 = Scan { link: wc, line: Seq::empty(), resp: None };
    lemma_scan_split(c0, x, b);
    lemma_scan_frame(init, x + b, x);
    let c1 = scan(c0, x);
    assert(c1 == Scan { link: LinkView { rx: x + b, ..e1.link }, line: p, resp: e1.resp });
    lemma_scan_frame(c1, p + b, b);
}

/// A command other than the firmware query, sent on an idle link with an
/// empty buffer, is answered `Ready` by the bytes `OK\r\n`; the slot is then
/// free, so any next command is accepted.
pub proof fn lemma_ok_answers_command(s: LinkView, c: Command, next: Command)
    requires
        s.wf(),
        s.pending is None,
        s.rx.len() == 0,
        c != Command::GetFirmwareVersion,
    ensures
        send_spec(s, c).1 is Ok,
        digest_spec(write_spec(send_spec(s, c).0, ok_line() + crlf())).1 == Some(ResponseView::Ready),
        digest_spec(write_spec(send_spec(s, c).0, ok_line() + crlf())).0.pending is None,
        digest_spec(write_spec(send_spec(s, c).0, ok_line() + crlf())).0.rx.len() == 0,
        send_spec(digest_spec(write_spec(send_spec(s, c).0, ok_line() + crlf())).0, next).1 is Ok,
{
    let s1 = send_spec(s, c).0;
    let bytes = ok_line() + crlf();
    assert(bytes =~= seq![79u8, 75u8, CR, LF]);
    assert(bytes.take(4) =~= bytes);
    let w = write_spec(s1, bytes);
    assert(w.rx =~= seq![79u8, 75u8, CR, LF]);
    let init = Scan { link: w, line: Seq::empty(), resp: None };
    let x1 = Seq::<u8>::empty().push(79u8);
    let x2 = x1.push(75u8);
    let x3 = x2.push(CR);
    let x4 = x3.push(LF);
    assert(x4 =~= w.rx);
    lemma_scan_push(init, Seq::<u8>::empty(), 79u8);
    lemma_scan_push(init, x1, 75u8);
    lemma_scan_push(init, x2, CR);
    lemma_scan_push(init, x3, LF);
    assert(scan(init, x3).line =~= seq![79u8, 75u8, CR]);
    assert(strip_cr(scan(init, x3).line) =~= ok_line());
}

/// While a command is pending, sending another fails with `Busy` and changes nothing.
pub proof fn lemma_second_send_busy(s: LinkView, first: Command, second: Command)
    requires
        s.wf(),
    ensures
        send_spec(send_spec(s, first).0, second) == (send_spec(s, first).0, Err::<Seq<u8>, AtError>(AtError::Busy)),
{
}

} // verus!
