//! Over-the-air updates: the wire protocol and the update decisions.
//!
//! Wire protocol: a big-endian `u32` image length, followed by that many raw
//! bytes of an esp-idf app image (exactly what `espflash save-image`
//! produces). The image is written to the free OTA slot in chunks of at most
//! [`CHUNK_LEN`] bytes, and the slot is activated only once every byte has
//! been written.
use vstd::prelude::*;
use crate::led_control::LedCommand;

verus! {

/// The TCP port the device listens on for updates.
pub const OTA_PORT: u16 = 3232;

/// The largest piece of the image received and written at once.
pub const CHUNK_LEN: usize = 4096;

/// The value of a big-endian four-byte length prefix.
pub open spec fn be_u32(b: [u8; 4]) -> int {
    b[0] * 0x100_0000 + b[1] * 0x1_0000 + b[2] * 0x100 + b[3]
}

/// Byte `k` (counted from the least significant) of `v`.
pub open spec fn be_digit(v: int, k: int) -> int {
    if k == 0 {
        v % 0x100
    } else if k == 1 {
        (v / 0x100) % 0x100
    } else if k == 2 {
        (v / 0x1_0000) % 0x100
    } else {
        (v / 0x100_0000) % 0x100
    }
}

/// Decodes the image length prefix.
pub fn image_length(len_buf: [u8; 4]) -> (r: u32)
    ensures
        r == be_u32(len_buf),
{
    len_buf[0] as u32 * 0x100_0000 + len_buf[1] as u32 * 0x1_0000 + len_buf[2] as u32 * 0x100
        + len_buf[3] as u32
}

/// Encodes the image length prefix (what the host-side flashing tool sends).
pub fn encode_image_length(len: u32) -> (r: [u8; 4])
    ensures
        r[0] == be_digit(len as int, 3),
        r[1] == be_digit(len as int, 2),
        r[2] == be_digit(len as int, 1),
        r[3] == be_digit(len as int, 0),
{
    let b0 = (len / 0x100_0000) as u8;
    let b1 = ((len / 0x1_0000) % 0x100) as u8;
    let b2 = ((len / 0x100) % 0x100) as u8;
    let b3 = (len % 0x100) as u8;
    let r = [b0, b1, b2, b3];
    assert(r[0] == b0 && r[1] == b1 && r[2] == b2 && r[3] == b3);
    r
}

/// Why an update failed.
#[derive(Debug, Clone, Copy, PartialEq, Eq, Structural)]
pub enum OtaError {
    ReadLength,
    PartitionTable,
    NoFreePartition,
    Connection,
    FlashWrite,
    Activate,
    SetState,
}

impl OtaError {
    pub fn message(&self) -> (r: &'static str)
        ensures
            r@ == (match self {
                OtaError::ReadLength => "failed to read image length"@,
                OtaError::PartitionTable => "failed to read partition table"@,
                OtaError::NoFreePartition => "no free OTA partition"@,
                OtaError::Connection => "connection error while receiving image"@,
                OtaError::FlashWrite => "flash write failed"@,
                OtaError::Activate => "failed to activate new partition"@,
                OtaError::SetState => "failed to set OTA state"@,
            }),
    {
        match self {
            OtaError::ReadLength => "failed to read image length",
            OtaError::PartitionTable => "failed to read partition table",
            OtaError::NoFreePartition => "no free OTA partition",
            OtaError::Connection => "connection error while receiving image",
            OtaError::FlashWrite => "flash write failed",
            OtaError::Activate => "failed to activate new partition",
            OtaError::SetState => "failed to set OTA state",
        }
    }
}

/// One piece of the image: where it goes in the slot, and how long it is.
#[derive(Debug, Clone, Copy, PartialEq, Eq, Structural)]
pub struct OtaChunk {
    pub offset: u32,
    pub len: usize,
}

/// What the receiver does next.
#[derive(Debug, Clone, Copy, PartialEq, Eq, Structural)]
pub enum OtaAction {
    /// Read `len` bytes from the connection and write them at `offset`.
    Receive(OtaChunk),
    /// Every byte is written: activate the new slot and mark it new.
    Activate,
}

/// The length of the chunk that starts `received` bytes into a `total`-byte image.
pub open spec fn chunk_len(total: int, received: int) -> int {
    if total - received < CHUNK_LEN {
        total - received
    } else {
        CHUNK_LEN as int
    }
}

/// Receives an image of known length, chunk by chunk.
pub struct OtaReceiver {
    total: usize,
    received: usize,
}

impl OtaReceiver {
    pub closed spec fn spec_total(&self) -> int {
        self.total as int
    }

    /// How many bytes of the image have been written.
    pub closed spec fn spec_received(&self) -> int {
        self.received as int
    }

    pub open spec fn wf(&self) -> bool {
        0 <= self.spec_received() <= self.spec_total() <= u32::MAX
    }

    /// The spec of [`Self::next_action`].
    pub open spec fn spec_next_action(&self) -> OtaAction {
        if self.spec_received() < self.spec_total() {
            OtaAction::Receive(
                OtaChunk {
                    offset: self.spec_received() as u32,
                    len: chunk_len(self.spec_total(), self.spec_received()) as usize,
                },
            )
        } else {
            OtaAction::Activate
        }
    }

    /// A receiver for an image of `total_len` bytes, nothing written yet.
    pub fn new(total_len: u32) -> (r: Self)
        ensures
            r.wf(),
            r.spec_total() == total_len,
            r.spec_received() == 0,
    {
        OtaReceiver { total: total_len as usize, received: 0 }
    }

    /// The next chunk to receive and write, or activation once the whole
    /// image is written.
    pub fn next_action(&self) -> (r: OtaAction)
        requires
            self.wf(),
        ensures
            r == self.spec_next_action(),
    {
        if self.received < self.total {
            let remaining = self.total - self.received;
            let want = if remaining < CHUNK_LEN {
                remaining
            } else {
                CHUNK_LEN
            };
            OtaAction::Receive(OtaChunk { offset: self.received as u32, len: want })
        } else {
            OtaAction::Activate
        }
    }

    /// Records that the chunk [`Self::next_action`] asked for was written.
    pub fn chunk_written(&mut self)
        requires
            old(self).wf(),
            old(self).spec_received() < old(self).spec_total(),
        ensures
            final(self).wf(),
            final(self).spec_total() == old(self).spec_total(),
            final(self).spec_received() == old(self).spec_received() + chunk_len(
                old(self).spec_total(),
                old(self).spec_received(),
            ),
    {
        let remaining = self.total - self.received;
        let want = if remaining < CHUNK_LEN {
            remaining
        } else {
            CHUNK_LEN
        };
        self.received = self.received + want;
    }
}

/// The state an OTA slot's image is in, as recorded in `otadata`.
#[derive(Debug, Clone, Copy, PartialEq, Eq, Structural)]
pub enum OtaImageState {
    New,
    PendingVerify,
    Valid,
    Invalid,
    Aborted,
    Undefined,
}

/// Whether the running slot should be marked valid at start-up: exactly when
/// its state could be read and it is still new or pending verification.
pub fn should_mark_valid(state: Option<OtaImageState>) -> (r: bool)
    ensures
        r == (state == Some(OtaImageState::New) || state == Some(OtaImageState::PendingVerify)),
{
    match state {
        Some(OtaImageState::New) | Some(OtaImageState::PendingVerify) => true,
        _ => false,
    }
}

/// The kind of app partition the device booted from.
#[derive(Debug, Clone, Copy, PartialEq, Eq, Structural)]
pub enum BootedPartition {
    Factory,
    /// An OTA slot, by number.
    Ota(u8),
    /// A partition that is not an app partition.
    Other,
}

/// What to report about the booted partition at start-up.
#[derive(Debug, Clone, Copy, PartialEq, Eq, Structural)]
pub enum BootReport {
    /// Booted from `factory`: plain USB flashes take effect.
    Factory,
    /// Booted from another partition: USB flashes (which always write
    /// `factory`) will not take effect until the OTA selection is reset.
    NotFactory(BootedPartition),
    /// The partition table has no booted partition.
    Unknown,
    /// The partition table could not be read.
    ReadFailed,
}

/// Classifies what reading the partition table found (`None`: it could not be
/// read; `Some(None)`: no booted partition).
pub fn boot_report(booted: Option<Option<BootedPartition>>) -> (r: BootReport)
    ensures
        r == (match booted {
            None => BootReport::ReadFailed,
            Some(None) => BootReport::Unknown,
            Some(Some(BootedPartition::Factory)) => BootReport::Factory,
            Some(Some(p)) => BootReport::NotFactory(p),
        }),
{
    match booted {
        None => BootReport::ReadFailed,
        Some(None) => BootReport::Unknown,
        Some(Some(BootedPartition::Factory)) => BootReport::Factory,
        Some(Some(p)) => BootReport::NotFactory(p),
    }
}

/// What the OTA task does once an update attempt has ended.
#[derive(Debug, Clone, Copy, PartialEq, Eq, Structural)]
pub struct OtaOutcome {
    /// The status the LEDs show.
    pub command: LedCommand,
    /// Reboot into the new firmware.
    pub reboot: bool,
}

/// After a successful update the LEDs show success and the device reboots;
/// after a failed one the animation resumes and the device keeps running.
pub fn ota_outcome(result: Result<(), OtaError>) -> (r: OtaOutcome)
    ensures
        result is Ok ==> r == (OtaOutcome { command: LedCommand::ShowOtaSuccess, reboot: true }),
        result is Err ==> r == (OtaOutcome { command: LedCommand::ResumeAnimation, reboot: false }),
{
    match result {
        Ok(()) => OtaOutcome { command: LedCommand::ShowOtaSuccess, reboot: true },
        Err(_) => OtaOutcome { command: LedCommand::ResumeAnimation, reboot: false },
    }
}

/// Each chunk is written where the bytes received so far end: while bytes
/// remain, the next action receives a chunk at offset `received`, as long as
/// what remains but at most [`CHUNK_LEN`] and never past the image's end, and
/// activation comes exactly when every byte has been received.
pub proof fn law_next_chunk_starts_at_received(rx: OtaReceiver)
    requires
        rx.wf(),
    ensures
        (rx.spec_next_action() is Activate) <==> rx.spec_received() == rx.spec_total(),
        rx.spec_next_action() matches OtaAction::Receive(c) ==> {
            &&& c.offset as int == rx.spec_received()
            &&& 0 < c.len <= 4096
            &&& c.offset + c.len <= rx.spec_total()
            &&& (c.len == 4096 || c.offset + c.len == rx.spec_total())
        },
{
}

/// Encoding a length and decoding the prefix gives the length back; decoding
/// a prefix and encoding the value gives the prefix back.
pub proof fn law_length_prefix_round_trip(len: u32, b: [u8; 4])
    ensures
        be_digit(len as int, 3) * 0x100_0000 + be_digit(len as int, 2) * 0x1_0000 + be_digit(
            len as int,
            1,
        ) * 0x100 + be_digit(len as int, 0) == len,
        0 <= be_u32(b) <= u32::MAX,
        be_digit(be_u32(b), 3) == b[0],
        be_digit(be_u32(b), 2) == b[1],
        be_digit(be_u32(b), 1) == b[2],
        be_digit(be_u32(b), 0) == b[3],
{
}

/// How far a receiver has got into a `total`-byte image after `k` chunks.
pub open spec fn received_after(total: int, k: int) -> int {
    if k * CHUNK_LEN < total {
        k * CHUNK_LEN
    } else {
        total
    }
}

/// The number of chunks a `total`-byte image takes.
pub open spec fn chunk_count(total: int) -> int {
    (total + CHUNK_LEN - 1) / CHUNK_LEN as int
}

/// The receiver's chunks tile the image: the `k`-th chunk starts `k`
/// [`CHUNK_LEN`]s into it and ends where the next one starts, every chunk
/// but the last is full, and after [`chunk_count`] chunks (and not before)
/// the whole image is written and activation is next.
pub proof fn law_chunks_tile_image(total: int, k: int)
    requires
        0 <= total,
        0 <= k,
    ensures
        received_after(total, 0) == 0,
        received_after(total, k) < total ==> {
            &&& received_after(total, k) == k * CHUNK_LEN
            &&& received_after(total, k) + chunk_len(total, received_after(total, k))
                == received_after(total, k + 1)
            &&& 0 < chunk_len(total, received_after(total, k)) <= CHUNK_LEN
        },
        (received_after(total, k) == total) <==> k >= chunk_count(total),
{
    let c = CHUNK_LEN as int;
    assert((k + 1) * c == k * c + c) by (nonlinear_arith);
    let n = chunk_count(total);
    vstd::arithmetic::div_mod::lemma_fundamental_div_mod(total + c - 1, c);
    let rem = (total + c - 1) % c;
    assert(n * c == total + c - 1 - rem);
    assert(0 <= rem < c);
    if k >= n {
        assert(k * c >= n * c) by (nonlinear_arith)
            requires
                k >= n,
                c > 0,
        ;
    } else {
        assert(k * c <= (n - 1) * c) by (nonlinear_arith)
            requires
                k <= n - 1,
                c > 0,
        ;
        assert((n - 1) * c == n * c - c) by (nonlinear_arith);
    }
}

} // verus!
