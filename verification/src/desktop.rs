//! The desktop guest: why the network adapter did not come up (and what the
//! person reads about it), the states a session reports, the time budget of
//! each candidate host, and the framing of the macOS `utun` device.

use vstd::prelude::*;
use vstd::string::*;

verus! {

/// Why the tunnel adapter could not be created: a kind, not a text.
#[derive(Clone, Copy, PartialEq, Eq, Structural, Debug)]
pub enum TunFail {
    /// The system said "permission denied": rights are missing, for sure.
    NoRights,
    /// The adapter library did not load (on Windows: a `wintun.dll` of the
    /// wrong architecture, or it could not be put next to the program).
    DriverLoad,
    /// There is no device for the tunnel (on Linux: no `tun` module, or
    /// `/dev/net/tun` not passed into a container).
    NoDevice,
    /// The reason is unknown, and no advice is made up for it.
    Unknown,
}

/// The human texts of the failures.
pub open spec fn human_text(f: TunFail) -> Seq<char> {
    match f {
        TunFail::NoRights => "Не удалось включить VPN — нужны права администратора. Запустите приложение ещё раз и введите пароль."@,
        TunFail::DriverLoad => "Не удалось включить VPN: библиотека сетевого адаптера не загрузилась. Проверьте, что стоит сборка для вашего процессора (ARM или x86), и обновите приложение."@,
        TunFail::NoDevice => "Не удалось включить VPN: в системе нет устройства для туннеля (/dev/net/tun). На Linux его даёт модуль tun — «modprobe tun»; в контейнере устройство надо пробросить внутрь."@,
        TunFail::Unknown => "Не удалось включить VPN: сетевой адаптер не создался, а причину система не назвала — назвать её не можем и мы. Попробуйте ещё раз."@,
    }
}

impl TunFail {
    /// Every kind, so that a check can walk all of them.
    pub const ALL: [TunFail; 4] = [TunFail::NoRights, TunFail::DriverLoad, TunFail::NoDevice, TunFail::Unknown];

    /// What the person reads. Advice about rights and passwords stands only
    /// where the system said that rights are missing.
    pub fn human(self) -> (s: &'static str)
        ensures
            s@ == human_text(self),
    {
        match self {
            TunFail::NoRights => "Не удалось включить VPN — нужны права администратора. Запустите приложение ещё раз и введите пароль.",
            TunFail::DriverLoad => "Не удалось включить VPN: библиотека сетевого адаптера не загрузилась. Проверьте, что стоит сборка для вашего процессора (ARM или x86), и обновите приложение.",
            TunFail::NoDevice => "Не удалось включить VPN: в системе нет устройства для туннеля (/dev/net/tun). На Linux его даёт модуль tun — «modprobe tun»; в контейнере устройство надо пробросить внутрь.",
            TunFail::Unknown => "Не удалось включить VPN: сетевой адаптер не создался, а причину система не назвала — назвать её не можем и мы. Попробуйте ещё раз.",
        }
    }
}

/// The kind of an I/O error, as far as the classification reads it.
#[derive(Clone, Copy, PartialEq, Eq, Structural, Debug)]
pub enum IoKind {
    PermissionDenied,
    NotFound,
    Other,
}

/// What creating the adapter failed with, as far as the classification reads
/// it.
#[derive(Clone, Copy, PartialEq, Eq, Structural, Debug)]
pub enum TunError {
    /// The Windows adapter library could not be loaded.
    LibLoading,
    /// An I/O error of the given kind.
    Io(IoKind),
    /// Anything else (an invalid name or configuration, not implemented...).
    Other,
}

/// The failure kind of an adapter error. Only "permission denied" is called a
/// rights problem; whatever is not recognised stays unknown.
pub fn classify(e: TunError) -> (f: TunFail)
    ensures
        f == match e {
            TunError::LibLoading => TunFail::DriverLoad,
            TunError::Io(IoKind::PermissionDenied) => TunFail::NoRights,
            TunError::Io(IoKind::NotFound) => TunFail::NoDevice,
            _ => TunFail::Unknown,
        },
        f == TunFail::NoRights <==> e == TunError::Io(IoKind::PermissionDenied),
{
    match e {
        TunError::LibLoading => TunFail::DriverLoad,
        TunError::Io(IoKind::PermissionDenied) => TunFail::NoRights,
        TunError::Io(IoKind::NotFound) => TunFail::NoDevice,
        _ => TunFail::Unknown,
    }
}

/// What a guest session reports to its shell.
#[derive(Clone, Debug, PartialEq)]
pub enum State {
    /// Trying this host (id).
    Connecting(String),
    /// The tunnel is up; all traffic goes through this host (id).
    Up(String),
    /// No tunnel (stopped, or the link broke).
    Off,
    /// The host ended its share (said goodbye): the session is over, and that
    /// is no error.
    HostLeft,
    /// Did not work; the text is for the person.
    Failed(String),
}

/// How many of the best hosts the quick start tries.
pub const QUICK_MAX: usize = 5;
/// Leash for a candidate after which there are more to try (ms).
pub const TRY_NEXT_AFTER_MS: u64 = 5000;
/// Leash for the last candidate: the full punching window with a margin (ms).
pub const LAST_CHANCE_MS: u64 = 15000;

/// The budget of attempt `i` out of `total`: the last one gets the full time,
/// the others a short leash.
pub fn budget(i: usize, total: usize) -> (ms: u64)
    ensures
        ms == if i + 1 >= total {
            LAST_CHANCE_MS
        } else {
            TRY_NEXT_AFTER_MS
        },
{
    if i >= total || total - i <= 1 {
        LAST_CHANCE_MS
    } else {
        TRY_NEXT_AFTER_MS
    }
}

/// The last candidate's budget covers the twelve-second punching window, and
/// the others' leash is shorter.
pub proof fn law_budgets()
    ensures
        LAST_CHANCE_MS >= 12000,
        TRY_NEXT_AFTER_MS < LAST_CHANCE_MS,
{
}

/// A setting from the shell as an option: empty means not given.
pub fn non_empty(s: &str) -> (r: Option<String>)
    ensures
        r matches Some(t) ==> t@ == s@,
        r is None <==> s@.len() == 0,
{
    if s.is_empty() {
        None
    } else {
        Some(String::from_str(s))
    }
}

/// How an attempt at one candidate went.
#[derive(Clone, Copy, PartialEq, Eq, Structural, Debug)]
pub enum Attempt {
    /// The user stopped while it ran.
    Stopped,
    /// The link to the host is up.
    Established,
    /// It failed or ran out of its budget.
    Failed,
}

/// What the candidate loop does next.
#[derive(Clone, Copy, PartialEq, Eq, Structural, Debug)]
pub enum CandidateStep {
    /// Report "off" and stop.
    Off,
    /// Run the tunnel over the established link.
    RunTunnel,
    /// Try candidate number `i` with a budget of `budget_ms`.
    Try { i: usize, budget_ms: u64 },
    /// Nobody could be reached.
    GiveUp,
}

/// The first attempt of the loop over `total` candidates.
pub fn first_candidate(total: usize) -> (r: CandidateStep)
    ensures
        total == 0 ==> r == CandidateStep::GiveUp,
        total > 0 ==> r == (CandidateStep::Try { i: 0, budget_ms: if total == 1 {
            LAST_CHANCE_MS
        } else {
            TRY_NEXT_AFTER_MS
        } }),
{
    if total == 0 {
        CandidateStep::GiveUp
    } else {
        CandidateStep::Try { i: 0, budget_ms: budget(0, total) }
    }
}

/// After attempt `i` of `total`: a stop ends everything, an established link
/// runs the tunnel, a failure moves to the next candidate or gives up after
/// the last.
pub fn after_attempt(i: usize, total: usize, a: Attempt) -> (r: CandidateStep)
    requires
        i < total,
    ensures
        a == Attempt::Stopped ==> r == CandidateStep::Off,
        a == Attempt::Established ==> r == CandidateStep::RunTunnel,
        a == Attempt::Failed && i + 1 < total ==> r == (CandidateStep::Try {
            i: (i + 1) as usize,
            budget_ms: if i + 2 >= total {
                LAST_CHANCE_MS
            } else {
                TRY_NEXT_AFTER_MS
            },
        }),
        a == Attempt::Failed && i + 1 == total ==> r == CandidateStep::GiveUp,
{
    match a {
        Attempt::Stopped => CandidateStep::Off,
        Attempt::Established => CandidateStep::RunTunnel,
        Attempt::Failed => if i + 1 < total {
            CandidateStep::Try { i: i + 1, budget_ms: budget(i + 1, total) }
        } else {
            CandidateStep::GiveUp
        },
    }
}

/// What the person reads when no candidate could be reached.
pub fn nobody_reached() -> (s: State)
    ensures
        s matches State::Failed(t) && t@ == "не удалось подключиться"@,
{
    State::Failed(String::from_str("не удалось подключиться"))
}

/// The state a finished tunnel reports: the host's goodbye is its own state,
/// anything else is "off".
pub fn tunnel_end_state(host_left: bool) -> (s: State)
    ensures
        host_left ==> s == State::HostLeft,
        !host_left ==> s == State::Off,
{
    if host_left {
        State::HostLeft
    } else {
        State::Off
    }
}

/// The state when the adapter could not be made.
pub fn tun_failed_state(f: TunFail) -> (s: State)
    ensures
        s matches State::Failed(t) && t@ == "TUN: "@ + human_text(f),
{
    let mut t = String::from_str("TUN: ");
    t.append(f.human());
    State::Failed(t)
}

/// The state when the routes could not be set up.
pub fn route_failed_state(reason: &str) -> (s: State)
    ensures
        s matches State::Failed(t) && t@ == "маршрут: "@ + reason@,
{
    let mut t = String::from_str("маршрут: ");
    t.append(reason);
    State::Failed(t)
}

/// The four-byte address family header of macOS `utun`: AF_INET (2) for
/// IPv4, AF_INET6 (30) when the packet's version nibble is 6.
pub open spec fn spec_utun_af_header(data: Seq<u8>) -> Seq<u8> {
    if data.len() > 0 && data[0] / 16 == 6 {
        seq![0u8, 0, 0, 30]
    } else {
        seq![0u8, 0, 0, 2]
    }
}

/// The `utun` header for a packet (see [`spec_utun_af_header`]).
pub fn utun_af_header(data: &[u8]) -> (h: [u8; 4])
    ensures
        h@ == spec_utun_af_header(data@),
{
    let af: u8 = if data.len() > 0 && data[0] >> 4 == 6 {
        30
    } else {
        2
    };
    proof {
        if data@.len() > 0 {
            let b = data@[0];
            assert(b >> 4 == b / 16) by (bit_vector);
        }
    }
    let h = [0u8, 0, 0, af];
    assert(h@ =~= spec_utun_af_header(data@));
    h
}

/// A packet framed for `utun`: the header, then the packet.
pub fn utun_frame(data: &[u8]) -> (v: Vec<u8>)
    ensures
        v@ == spec_utun_af_header(data@) + data@,
{
    let h = utun_af_header(data);
    let mut v: Vec<u8> = Vec::new();
    v.push(h[0]);
    v.push(h[1]);
    v.push(h[2]);
    v.push(h[3]);
    let mut i: usize = 0;
    while i < data.len()
        invariant
            i <= data@.len(),
            v@ == h@ + data@.take(i as int),
        decreases data@.len() - i,
    {
        v.push(data[i]);
        i = i + 1;
        assert(v@ =~= h@ + data@.take(i as int));
    }
    assert(data@.take(data@.len() as int) =~= data@);
    v
}

/// What one read from the `utun` device gives.
#[derive(PartialEq, Eq, Debug)]
pub enum UtunRead {
    /// The device was closed: end of stream.
    Eof,
    /// A packet without its header.
    Packet(Vec<u8>),
    /// A frame with no payload (a bare header): read again, it is no end.
    Skip,
}

/// Unframe one `utun` read: nothing read is the end, a header alone is
/// skipped, anything longer loses its four-byte header.
pub fn utun_unframe(frame: &[u8]) -> (r: UtunRead)
    ensures
        frame@.len() == 0 ==> r == UtunRead::Eof,
        1 <= frame@.len() <= 4 ==> r == UtunRead::Skip,
        frame@.len() > 4 ==> (r matches UtunRead::Packet(p) && p@ == frame@.skip(4)),
{
    if frame.len() == 0 {
        return UtunRead::Eof;
    }
    if frame.len() <= 4 {
        return UtunRead::Skip;
    }
    let mut p: Vec<u8> = Vec::new();
    let mut i: usize = 4;
    while i < frame.len()
        invariant
            4 <= i <= frame@.len(),
            p@ == frame@.subrange(4, i as int),
        decreases frame@.len() - i,
    {
        p.push(frame[i]);
        i = i + 1;
        assert(p@ =~= frame@.subrange(4, i as int));
    }
    assert(frame@.subrange(4, frame@.len() as int) =~= frame@.skip(4));
    UtunRead::Packet(p)
}

/// Framing and unframing give the packet back, for every non-empty packet.
pub proof fn law_utun_round_trip(data: Seq<u8>)
    ensures
        (spec_utun_af_header(data) + data).skip(4) == data,
        (spec_utun_af_header(data) + data).len() == data.len() + 4,
{
    assert((spec_utun_af_header(data) + data).skip(4) =~= data);
}

/// The result of a vectored read on the platform shell's `utun` descriptor: `n` is
/// what the system call returned.
#[derive(Clone, Copy, PartialEq, Eq, Structural, Debug)]
pub enum FdRead {
    /// The call failed; pass the system error on.
    OsError,
    /// End of stream: the device was closed.
    Eof,
    /// A frame shorter than its header: an error, not an end.
    Truncated,
    /// So many bytes of packet (the header taken off).
    Bytes(usize),
}

/// Read result of a `utun` descriptor (header split off into its own buffer).
pub fn utun_read_result(n: isize) -> (r: FdRead)
    ensures
        n < 0 ==> r == FdRead::OsError,
        n == 0 ==> r == FdRead::Eof,
        0 < n < 4 ==> r == FdRead::Truncated,
        n >= 4 ==> r == FdRead::Bytes((n - 4) as usize),
{
    if n < 0 {
        FdRead::OsError
    } else if n == 0 {
        FdRead::Eof
    } else if n < 4 {
        FdRead::Truncated
    } else {
        FdRead::Bytes((n - 4) as usize)
    }
}

/// How a packet is written to a `utun` descriptor.
#[derive(Clone, Copy, PartialEq, Eq, Debug)]
pub enum UtunWrite {
    /// An empty packet: nothing is written, and no byte of it was taken.
    Nothing,
    /// The header to send before the packet, in one vectored write.
    Framed([u8; 4]),
}

/// How a packet is written to `utun`: an empty one is not written at all
/// (the write reports 0 bytes), any other goes out after its header.
pub fn utun_write_plan(data: &[u8]) -> (r: UtunWrite)
    ensures
        data@.len() == 0 ==> r == UtunWrite::Nothing,
        data@.len() > 0 ==> (r matches UtunWrite::Framed(h) && h@ == spec_utun_af_header(data@)),
{
    if data.len() == 0 {
        UtunWrite::Nothing
    } else {
        UtunWrite::Framed(utun_af_header(data))
    }
}

/// The result of a vectored write on the platform shell's `utun` descriptor.
#[derive(Clone, Copy, PartialEq, Eq, Structural, Debug)]
pub enum FdWrite {
    OsError,
    /// Only the header (or less) went out.
    WriteZero,
    /// So many bytes of the packet went out.
    Bytes(usize),
}

/// Write result of a `utun` descriptor: what the system took of the packet,
/// never more than it took.
pub fn utun_write_result(n: isize) -> (r: FdWrite)
    ensures
        n < 0 ==> r == FdWrite::OsError,
        0 <= n <= 4 ==> r == FdWrite::WriteZero,
        n > 4 ==> r == FdWrite::Bytes((n - 4) as usize),
{
    if n < 0 {
        FdWrite::OsError
    } else if n <= 4 {
        FdWrite::WriteZero
    } else {
        FdWrite::Bytes((n - 4) as usize)
    }
}

} // verus!
