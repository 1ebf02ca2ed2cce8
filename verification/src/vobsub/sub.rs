//! Subtitle data parsing: the control-sequence interpreter of a `VobSub`
//! subpicture packet.
//!
//! A subpicture holds a linked list of control sequences, each carrying a
//! date and a list of commands for timing, palette, alpha, geometry and
//! run-length offsets.  The interpreter folds them into an accumulator
//! whose fields the emitted subtitle is built from.

use crate::bits::{bits_val, spec_be16, BitReader};
use crate::content::{area_values_valid, Area, AreaValues, ContentError};
use crate::time::TimePoint;
use crate::vobsub::img::VobSubRleImage;
use crate::vobsub::{ErrorMissing, ParseError, VobSubError};
use vstd::prelude::*;

verus! {

/// Parse a single big-endian 16-bit value from the front of a buffer.
pub fn parse_be_u16_as_usize<'a>(buff: &'a [u8]) -> (res: Result<(&'a [u8], usize), VobSubError>)
    ensures
        res is Ok <==> buff@.len() >= 2,
        res is Ok ==> res->Ok_0.1 == spec_be16(buff@, 0) && res->Ok_0.0@ == buff@.subrange(
            2,
            buff@.len() as int,
        ),
        res is Err ==> res->Err_0 == VobSubError::BufferTooSmallForU16,
{
    if buff.len() < 2 {
        Err(VobSubError::BufferTooSmallForU16)
    } else {
        let v = crate::bits::read_be16(buff, 0) as usize;
        Ok((vstd::slice::slice_subrange(buff, 2, buff.len()), v))
    }
}

/// Individual commands which may appear in a control sequence.
#[derive(Clone, Copy, Debug, PartialEq, Eq)]
pub enum ControlCommand {
    /// Display this subtitle even when subtitles are turned off.
    Force,
    /// Start displaying the subtitle at the date of this sequence.
    StartDate,
    /// Stop displaying the subtitle at the date of this sequence.
    StopDate,
    /// Map each of the four 2-bit pixel values to a 4-bit palette index.
    Palette([u8; 4]),
    /// Map each of the four 2-bit pixel values to a 4-bit alpha value.
    Alpha([u8; 4]),
    /// Corner coordinates at which to display the subtitle.
    Coordinates(AreaValues),
    /// Offsets of the first and second scan-line streams in the packet.
    RleOffsets([u16; 2]),
    /// An unrecognized command; its bytes up to the next `0xff` are
    /// skipped.
    Unsupported,
}

/// The mathematical shape of a control command, with sequence views for
/// the fixed-size payloads.
pub ghost enum SpecCommand {
    /// Display this subtitle even when subtitles are turned off.
    Force,
    /// Start displaying the subtitle at the date of this sequence.
    StartDate,
    /// Stop displaying the subtitle at the date of this sequence.
    StopDate,
    /// The four palette indices.
    Palette(Seq<u8>),
    /// The four alpha values.
    Alpha(Seq<u8>),
    /// Corner coordinates.
    Coordinates(AreaValues),
    /// The two scan-line stream offsets.
    RleOffsets(u16, u16),
    /// An unrecognized, skipped command.
    Unsupported,
}

impl View for ControlCommand {
    type V = SpecCommand;

    open spec fn view(&self) -> SpecCommand {
        match *self {
            ControlCommand::Force => SpecCommand::Force,
            ControlCommand::StartDate => SpecCommand::StartDate,
            ControlCommand::StopDate => SpecCommand::StopDate,
            ControlCommand::Palette(p) => SpecCommand::Palette(p@),
            ControlCommand::Alpha(a) => SpecCommand::Alpha(a@),
            ControlCommand::Coordinates(v) => SpecCommand::Coordinates(v),
            ControlCommand::RleOffsets(o) => SpecCommand::RleOffsets(o[0], o[1]),
            ControlCommand::Unsupported => SpecCommand::Unsupported,
        }
    }
}

/// The four 4-bit values packed into the two bytes at byte `p`.
pub open spec fn spec_quad(data: Seq<u8>, p: int) -> Seq<u8> {
    seq![
        bits_val(data, 8 * p, 4) as u8,
        bits_val(data, 8 * p + 4, 4) as u8,
        bits_val(data, 8 * p + 8, 4) as u8,
        bits_val(data, 8 * p + 12, 4) as u8,
    ]
}

/// The four 12-bit corner coordinates packed into the six bytes at byte
/// `p`, in the stream's `x1 x2 y1 y2` order.
pub open spec fn spec_area_vals(data: Seq<u8>, p: int) -> AreaValues {
    AreaValues {
        x1: bits_val(data, 8 * p, 12) as u16,
        x2: bits_val(data, 8 * p + 12, 12) as u16,
        y1: bits_val(data, 8 * p + 24, 12) as u16,
        y2: bits_val(data, 8 * p + 36, 12) as u16,
    }
}

/// The position of the first `0xff` byte at or after `pos`.
pub open spec fn first_ff_from(data: Seq<u8>, pos: int) -> Option<int>
    decreases data.len() - pos,
{
    if pos < 0 || pos >= data.len() {
        None
    } else if data[pos] == 0xff {
        Some(pos)
    } else {
        first_ff_from(data, pos + 1)
    }
}

/// The first `0xff` at or after `pos` stands at or after `pos`.
pub proof fn lemma_first_ff_ge(data: Seq<u8>, pos: int)
    ensures
        first_ff_from(data, pos) is Some ==> pos <= first_ff_from(data, pos)->0 < data.len()
            && data[first_ff_from(data, pos)->0] == 0xff,
    decreases data.len() - pos,
{
    if 0 <= pos < data.len() && data[pos] != 0xff {
        lemma_first_ff_ge(data, pos + 1);
    }
}

/// Parse one command at byte `pos`: the first byte selects the command,
/// fixed-length payloads follow; an unknown opcode is skipped up to (but
/// not including) the next `0xff`.  `None` when the input runs out first.
pub open spec fn spec_command(data: Seq<u8>, pos: int) -> Option<(SpecCommand, int)> {
    if pos < 0 || pos >= data.len() {
        None
    } else {
        let op = data[pos];
        if op == 0x00 {
            Some((SpecCommand::Force, pos + 1))
        } else if op == 0x01 {
            Some((SpecCommand::StartDate, pos + 1))
        } else if op == 0x02 {
            Some((SpecCommand::StopDate, pos + 1))
        } else if op == 0x03 {
            if pos + 3 <= data.len() {
                Some((SpecCommand::Palette(spec_quad(data, pos + 1)), pos + 3))
            } else {
                None
            }
        } else if op == 0x04 {
            if pos + 3 <= data.len() {
                Some((SpecCommand::Alpha(spec_quad(data, pos + 1)), pos + 3))
            } else {
                None
            }
        } else if op == 0x05 {
            if pos + 7 <= data.len() {
                Some((SpecCommand::Coordinates(spec_area_vals(data, pos + 1)), pos + 7))
            } else {
                None
            }
        } else if op == 0x06 {
            if pos + 5 <= data.len() {
                Some(
                    (
                        SpecCommand::RleOffsets(
                            spec_be16(data, pos + 1) as u16,
                            spec_be16(data, pos + 3) as u16,
                        ),
                        pos + 5,
                    ),
                )
            } else {
                None
            }
        } else {
            match first_ff_from(data, pos) {
                Option::Some(ff) => Some((SpecCommand::Unsupported, ff)),
                Option::None => None,
            }
        }
    }
}

/// Read four 4-bit values from the two bytes at byte `p`.
fn read_quad(data: &[u8], p: usize) -> (r: [u8; 4])
    requires
        p + 2 <= data@.len(),
    ensures
        r@ == spec_quad(data@, p as int),
{
    let mut reader = BitReader::new_at(data, p, 0);
    proof {
        vstd::arithmetic::power2::lemma2_to64();
    }
    let a = match reader.read_bits(4) {
        Some(v) => v,
        None => {
            proof {
                assert(false);
            }
            0
        },
    };
    let b = match reader.read_bits(4) {
        Some(v) => v,
        None => {
            proof {
                assert(false);
            }
            0
        },
    };
    let c = match reader.read_bits(4) {
        Some(v) => v,
        None => {
            proof {
                assert(false);
            }
            0
        },
    };
    let d = match reader.read_bits(4) {
        Some(v) => v,
        None => {
            proof {
                assert(false);
            }
            0
        },
    };
    let r = [a as u8, b as u8, c as u8, d as u8];
    proof {
        assert(r@ =~= spec_quad(data@, p as int));
    }
    r
}

/// Parse four 4-bit palette entries out of the two bytes at byte `pos`.
pub fn palette_entries(data: &[u8], pos: usize) -> (res: Result<[u8; 4], ParseError>)
    ensures
        res is Ok <==> pos + 2 <= data@.len(),
        res is Ok ==> res->Ok_0@ == spec_quad(data@, pos as int),
        res is Err ==> res->Err_0 == ParseError::Incomplete,
{
    if data.len() < pos || data.len() - pos < 2 {
        return Err(ParseError::Incomplete);
    }
    Ok(read_quad(data, pos))
}

/// Find the first `0xff` byte at or after `pos`.
fn find_ff(data: &[u8], pos: usize) -> (r: Option<usize>)
    requires
        pos <= data@.len(),
    ensures
        match r {
            Option::Some(f) => first_ff_from(data@, pos as int) == Some(f as int) && pos <= f < data@.len() && data@[f as int] == 0xff,
            Option::None => first_ff_from(data@, pos as int) is None,
        },
{
    let mut i: usize = pos;
    while i < data.len()
        invariant
            pos <= i <= data@.len(),
            first_ff_from(data@, pos as int) == first_ff_from(data@, i as int),
        decreases data@.len() - i,
    {
        if data[i] == 0xff {
            return Some(i);
        }
        i = i + 1;
    }
    None
}

/// Parse a single command in a control sequence at byte `pos`.
pub fn control_command(data: &[u8], pos: usize) -> (res: Result<(ControlCommand, usize), ParseError>)
    ensures
        match res {
            Result::Ok((c, end)) => {
                &&& spec_command(data@, pos as int) == Some((c@, end as int))
                &&& pos <= end <= data@.len()
                &&& (data@[pos as int] != 0xff ==> pos < end)
                &&& (c is Coordinates ==> c->Coordinates_0.x1 < 4096 && c->Coordinates_0.x2 < 4096
                    && c->Coordinates_0.y1 < 4096 && c->Coordinates_0.y2 < 4096)
            },
            Result::Err(e) => spec_command(data@, pos as int) is None && e
                == ParseError::Incomplete,
        },
{
    if pos >= data.len() {
        return Err(ParseError::Incomplete);
    }
    let op = data[pos];
    proof {
        vstd::arithmetic::power2::lemma2_to64();
    }
    match op {
        0x00 => Ok((ControlCommand::Force, pos + 1)),
        0x01 => Ok((ControlCommand::StartDate, pos + 1)),
        0x02 => Ok((ControlCommand::StopDate, pos + 1)),
        0x03 => {
            if data.len() - pos < 3 {
                return Err(ParseError::Incomplete);
            }
            Ok((ControlCommand::Palette(read_quad(data, pos + 1)), pos + 3))
        },
        0x04 => {
            if data.len() - pos < 3 {
                return Err(ParseError::Incomplete);
            }
            Ok((ControlCommand::Alpha(read_quad(data, pos + 1)), pos + 3))
        },
        0x05 => {
            if data.len() - pos < 7 {
                return Err(ParseError::Incomplete);
            }
            let mut reader = BitReader::new_at(data, pos + 1, 0);
            let x1 = match reader.read_bits(12) {
                Some(v) => v,
                None => {
                    proof {
                        assert(false);
                    }
                    0
                },
            };
            let x2 = match reader.read_bits(12) {
                Some(v) => v,
                None => {
                    proof {
                        assert(false);
                    }
                    0
                },
            };
            let y1 = match reader.read_bits(12) {
                Some(v) => v,
                None => {
                    proof {
                        assert(false);
                    }
                    0
                },
            };
            let y2 = match reader.read_bits(12) {
                Some(v) => v,
                None => {
                    proof {
                        assert(false);
                    }
                    0
                },
            };
            proof {
                vstd::arithmetic::power2::lemma2_to64_rest();
            }
            let v = AreaValues {
                x1: x1 as u16,
                x2: x2 as u16,
                y1: y1 as u16,
                y2: y2 as u16,
            };
            Ok((ControlCommand::Coordinates(v), pos + 7))
        },
        0x06 => {
            if data.len() - pos < 5 {
                return Err(ParseError::Incomplete);
            }
            let o0 = crate::bits::read_be16(data, pos + 1);
            let o1 = crate::bits::read_be16(data, pos + 3);
            let r = [o0, o1];
            Ok((ControlCommand::RleOffsets(r), pos + 5))
        },
        _ => {
            match find_ff(data, pos) {
                Some(ff) => Ok((ControlCommand::Unsupported, ff)),
                None => Err(ParseError::Incomplete),
            }
        },
    }
}

/// The commands of one control sequence, read until the `0xff` terminator
/// (which is consumed).  `None` when the input runs out first.
pub open spec fn spec_commands(data: Seq<u8>, pos: int) -> Option<(Seq<SpecCommand>, int)>
    decreases data.len() - pos,
    when true
    via spec_commands_decreases
{
    if pos < 0 || pos >= data.len() {
        None
    } else if data[pos] == 0xff {
        Some((Seq::empty(), pos + 1))
    } else {
        match spec_command(data, pos) {
            Option::None => None,
            Option::Some((c, end)) => match spec_commands(data, end) {
                Option::None => None,
                Option::Some((rest, e2)) => Some((seq![c] + rest, e2)),
            },
        }
    }
}

#[via_fn]
proof fn spec_commands_decreases(data: Seq<u8>, pos: int) {
    if 0 <= pos < data.len() && data[pos] != 0xff {
        match spec_command(data, pos) {
            Option::None => {},
            Option::Some((c, end)) => {
                lemma_first_ff_ge(data, pos);
                assert(pos < end <= data.len());
            },
        }
    }
}

/// The control packet for a subtitle: its date, the offset of the next
/// control sequence, and its commands.
#[derive(Debug, Clone, PartialEq, Eq)]
pub struct ControlSequence {
    /// The time of this sequence, in 1/100ths of a second after the
    /// Presentation Time Stamp of the subtitle's packet.
    pub date: u16,
    /// The offset of the next control sequence; a sequence pointing at its
    /// own offset is the last one.
    pub next: u16,
    /// The commands of this sequence.
    pub commands: Vec<ControlCommand>,
}

/// One whole control sequence at byte `pos`: a 16-bit date, a 16-bit next
/// offset, and commands up to the consumed `0xff` terminator.
pub open spec fn spec_control_sequence(data: Seq<u8>, pos: int) -> Option<
    (u16, u16, Seq<SpecCommand>, int),
> {
    if 0 <= pos && pos + 4 <= data.len() {
        match spec_commands(data, pos + 4) {
            Option::Some((cmds, end)) => Some(
                (spec_be16(data, pos) as u16, spec_be16(data, pos + 2) as u16, cmds, end),
            ),
            Option::None => None,
        }
    } else {
        None
    }
}

/// Whether every coordinates payload in a command list carries 12-bit
/// values, as parsed commands always do.
pub open spec fn spec_coords_bounded(cmds: Seq<SpecCommand>) -> bool {
    forall|i: int|
        0 <= i < cmds.len() ==> (cmds[i] is Coordinates ==> {
            let v = cmds[i]->Coordinates_0;
            v.x1 < 4096 && v.x2 < 4096 && v.y1 < 4096 && v.y2 < 4096
        })
}

/// Parse a single control sequence at byte `pos`.
pub fn control_sequence(data: &[u8], pos: usize) -> (res: Result<
    (ControlSequence, usize),
    ParseError,
>)
    ensures
        match res {
            Result::Ok((cs, end)) => {
                &&& spec_control_sequence(data@, pos as int) == Some(
                    (
                        cs.date,
                        cs.next,
                        cs.commands@.map_values(|c: ControlCommand| c@),
                        end as int,
                    ),
                )
                &&& spec_coords_bounded(cs.commands@.map_values(|c: ControlCommand| c@))
                &&& pos <= end <= data@.len()
            },
            Result::Err(e) => spec_control_sequence(data@, pos as int) is None && e
                == ParseError::Incomplete,
        },
{
    if data.len() < pos || data.len() - pos < 4 {
        return Err(ParseError::Incomplete);
    }
    let date = crate::bits::read_be16(data, pos);
    let next = crate::bits::read_be16(data, pos + 2);
    let mut commands: Vec<ControlCommand> = Vec::new();
    let mut p: usize = pos + 4;
    proof {
        assert(commands@.map_values(|c: ControlCommand| c@) =~= Seq::<SpecCommand>::empty());
    }
    loop
        invariant
            pos + 4 <= p <= data@.len(),
            date as nat == spec_be16(data@, pos as int),
            next as nat == spec_be16(data@, pos as int + 2),
            spec_coords_bounded(commands@.map_values(|c: ControlCommand| c@)),
            spec_commands(data@, pos as int + 4) == match spec_commands(data@, p as int) {
                Option::Some((rest, e)) => Some(
                    (commands@.map_values(|c: ControlCommand| c@) + rest, e),
                ),
                Option::None => None::<(Seq<SpecCommand>, int)>,
            },
        decreases data@.len() - p,
    {
        if p >= data.len() {
            return Err(ParseError::Incomplete);
        }
        if data[p] == 0xff {
            proof {
                assert(commands@.map_values(|c: ControlCommand| c@) + Seq::<
                    SpecCommand,
                >::empty() =~= commands@.map_values(|c: ControlCommand| c@));
            }
            return Ok((ControlSequence { date, next, commands }, p + 1));
        }
        let (c, e) = match control_command(data, p) {
            Ok(v) => v,
            Err(err) => {
                return Err(err);
            },
        };
        let ghost cmds0 = commands@;
        commands.push(c);
        proof {
            let mapped0 = cmds0.map_values(|cc: ControlCommand| cc@);
            let mapped1 = commands@.map_values(|cc: ControlCommand| cc@);
            assert(mapped1 =~= mapped0 + seq![c@]);
            if spec_commands(data@, e as int) is Some {
                let (rest, e2) = spec_commands(data@, e as int)->0;
                assert(mapped0 + (seq![c@] + rest) =~= mapped1 + rest);
            }
        }
        p = e;
    }
}

/// What the control sequences of a subpicture have accumulated so far:
/// sticky force, first-wins timing, palette, alpha and area, last-wins
/// run-length offsets.
#[derive(Debug, Clone, Copy)]
pub struct ControlAccumulator {
    /// The subtitle is shown even when subtitles are off.
    pub force: bool,
    /// The date of the first `StartDate` command seen.
    pub start_date: Option<u16>,
    /// The date of the first `StopDate` command seen.
    pub end_date: Option<u16>,
    /// The first palette quad seen.
    pub palette: Option<[u8; 4]>,
    /// The first alpha quad seen.
    pub alpha: Option<[u8; 4]>,
    /// The first valid display area seen.
    pub area: Option<Area>,
    /// The last pair of scan-line offsets seen.
    pub rle_offsets: Option<[u16; 2]>,
}

/// The mathematical shape of the accumulator.
pub ghost struct SpecAccumulator {
    /// The subtitle is shown even when subtitles are off.
    pub force: bool,
    /// The date of the first `StartDate` command seen.
    pub start_date: Option<u16>,
    /// The date of the first `StopDate` command seen.
    pub end_date: Option<u16>,
    /// The first palette quad seen.
    pub palette: Option<Seq<u8>>,
    /// The first alpha quad seen.
    pub alpha: Option<Seq<u8>>,
    /// The first valid display area seen.
    pub area: Option<Area>,
    /// The last pair of scan-line offsets seen.
    pub rle_offsets: Option<(u16, u16)>,
}

impl View for ControlAccumulator {
    type V = SpecAccumulator;

    open spec fn view(&self) -> SpecAccumulator {
        SpecAccumulator {
            force: self.force,
            start_date: self.start_date,
            end_date: self.end_date,
            palette: match self.palette {
                Option::Some(p) => Some(p@),
                Option::None => None,
            },
            alpha: match self.alpha {
                Option::Some(a) => Some(a@),
                Option::None => None,
            },
            area: self.area,
            rle_offsets: match self.rle_offsets {
                Option::Some(o) => Some((o[0], o[1])),
                Option::None => None,
            },
        }
    }
}

/// The empty accumulator every subpicture starts from.
pub open spec fn spec_acc_init() -> SpecAccumulator {
    SpecAccumulator {
        force: false,
        start_date: None,
        end_date: None,
        palette: None,
        alpha: None,
        area: None,
        rle_offsets: None,
    }
}

/// Fold one command into the accumulator.  Timing, palette, alpha and
/// area keep their first value; the run-length offsets keep their last;
/// `Force` is sticky.  Invalid coordinates fail, whether or not an area
/// is already set.
pub open spec fn spec_apply_command(acc: SpecAccumulator, date: u16, c: SpecCommand) -> Result<
    SpecAccumulator,
    VobSubError,
> {
    match c {
        SpecCommand::Force => Ok(SpecAccumulator { force: true, ..acc }),
        SpecCommand::StartDate => Ok(
            SpecAccumulator {
                start_date: if acc.start_date is Some {
                    acc.start_date
                } else {
                    Some(date)
                },
                ..acc
            },
        ),
        SpecCommand::StopDate => Ok(
            SpecAccumulator {
                end_date: if acc.end_date is Some {
                    acc.end_date
                } else {
                    Some(date)
                },
                ..acc
            },
        ),
        SpecCommand::Palette(p) => Ok(
            SpecAccumulator {
                palette: if acc.palette is Some {
                    acc.palette
                } else {
                    Some(p)
                },
                ..acc
            },
        ),
        SpecCommand::Alpha(a) => Ok(
            SpecAccumulator {
                alpha: if acc.alpha is Some {
                    acc.alpha
                } else {
                    Some(a)
                },
                ..acc
            },
        ),
        SpecCommand::Coordinates(v) => if area_values_valid(v) {
            Ok(
                SpecAccumulator {
                    area: if acc.area is Some {
                        acc.area
                    } else {
                        Some(Area::spec_from_values(v))
                    },
                    ..acc
                },
            )
        } else {
            Err(VobSubError::Content(ContentError::InvalidAreaBounding))
        },
        SpecCommand::RleOffsets(a, b) => Ok(SpecAccumulator { rle_offsets: Some((a, b)), ..acc }),
        SpecCommand::Unsupported => Ok(acc),
    }
}

/// Fold a whole command list into the accumulator, stopping at the first
/// failure.
pub open spec fn spec_apply_commands(
    acc: SpecAccumulator,
    date: u16,
    cmds: Seq<SpecCommand>,
) -> Result<SpecAccumulator, VobSubError>
    decreases cmds.len(),
{
    if cmds.len() == 0 {
        Ok(acc)
    } else {
        match spec_apply_command(acc, date, cmds[0]) {
            Result::Ok(a2) => spec_apply_commands(a2, date, cmds.subrange(1, cmds.len() as int)),
            Result::Err(e) => Err(e),
        }
    }
}

/// Fold one command into the accumulator.
pub fn apply_command(acc: ControlAccumulator, date: u16, c: &ControlCommand) -> (res: Result<
    ControlAccumulator,
    VobSubError,
>)
    ensures
        match res {
            Result::Ok(a2) => spec_apply_command(acc@, date, c@) == Ok::<
                SpecAccumulator,
                VobSubError,
            >(a2@),
            Result::Err(e) => spec_apply_command(acc@, date, c@) == Err::<
                SpecAccumulator,
                VobSubError,
            >(e),
        },
{
    match c {
        ControlCommand::Force => Ok(ControlAccumulator { force: true, ..acc }),
        ControlCommand::StartDate => Ok(
            ControlAccumulator {
                start_date: if acc.start_date.is_some() {
                    acc.start_date
                } else {
                    Some(date)
                },
                ..acc
            },
        ),
        ControlCommand::StopDate => Ok(
            ControlAccumulator {
                end_date: if acc.end_date.is_some() {
                    acc.end_date
                } else {
                    Some(date)
                },
                ..acc
            },
        ),
        ControlCommand::Palette(p) => Ok(
            ControlAccumulator {
                palette: if acc.palette.is_some() {
                    acc.palette
                } else {
                    Some(*p)
                },
                ..acc
            },
        ),
        ControlCommand::Alpha(a) => Ok(
            ControlAccumulator {
                alpha: if acc.alpha.is_some() {
                    acc.alpha
                } else {
                    Some(*a)
                },
                ..acc
            },
        ),
        ControlCommand::Coordinates(v) => {
            let cmd_area = match Area::try_from(*v) {
                Ok(a) => a,
                Err(e) => {
                    return Err(VobSubError::Content(e));
                },
            };
            Ok(
                ControlAccumulator {
                    area: if acc.area.is_some() {
                        acc.area
                    } else {
                        Some(cmd_area)
                    },
                    ..acc
                },
            )
        },
        ControlCommand::RleOffsets(o) => Ok(ControlAccumulator { rle_offsets: Some(*o), ..acc }),
        ControlCommand::Unsupported => Ok(acc),
    }
}

/// Interpret the chain of control sequences from offset `off`: parse a
/// sequence, fold its commands, and follow its next-offset link.  A link
/// to the sequence's own offset ends the chain; a link backwards, an
/// offset past the packet, or an unparseable sequence fails.
pub open spec fn spec_interp(data: Seq<u8>, off: int, acc: SpecAccumulator) -> Result<
    SpecAccumulator,
    VobSubError,
>
    recommends
        0 <= off < 65536,
    decreases 65536 - off,
    when 0 <= off <= 65535
{
    if off >= data.len() {
        Err(
            VobSubError::ControlOffsetBiggerThanPacket {
                offset: off as usize,
                packet: data.len() as usize,
            },
        )
    } else {
        match spec_control_sequence(data, off) {
            Option::None => Err(VobSubError::ControlSequence(ParseError::Incomplete)),
            Option::Some((date, next, cmds, _end)) => match spec_apply_commands(acc, date, cmds) {
                Result::Err(e) => Err(e),
                Result::Ok(a2) => if off > next as int {
                    Err(VobSubError::ControlOffsetWentBackwards)
                } else if off == next as int {
                    Ok(a2)
                } else {
                    spec_interp(data, next as int, a2)
                },
            },
        }
    }
}

/// Everything the control data of a subpicture resolves to: timing, the
/// display area, the palette and alpha quads already reversed for direct
/// indexing by pixel value, and the two scan-line streams.
pub ghost struct SpecSubtitle {
    /// Start time in milliseconds.
    pub start_ms: int,
    /// End time in milliseconds, when a stop date was given.
    pub end_ms: Option<int>,
    /// Show the subtitle even when subtitles are off.
    pub force: bool,
    /// The display area.
    pub area: Area,
    /// The palette quad, reversed for direct indexing.
    pub palette: Seq<u8>,
    /// The alpha quad, reversed for direct indexing.
    pub alpha: Seq<u8>,
    /// The even scan-line stream.
    pub even: Seq<u8>,
    /// The odd scan-line stream.
    pub odd: Seq<u8>,
}

/// What parsing a whole subpicture packet at a given base time yields:
/// the control chain is interpreted from the initial control offset, the
/// required parts are checked, and the scan-line streams are cut out of
/// the packet, bounded by the start of the control data.
pub open spec fn spec_subtitle(data: Seq<u8>, base_ms: int) -> Result<SpecSubtitle, VobSubError> {
    if data.len() < 2 {
        Err(VobSubError::UnexpectedEndOfSubtitleData)
    } else if data.len() < 4 {
        Err(VobSubError::BufferTooSmallForU16)
    } else {
        let ico = spec_be16(data, 2) as int;
        match spec_interp(data, ico, spec_acc_init()) {
            Result::Err(e) => Err(e),
            Result::Ok(acc) => if acc.start_date is None {
                Err(VobSubError::MissingSubtitleParsing(ErrorMissing::StartTime))
            } else if acc.area is None {
                Err(VobSubError::MissingSubtitleParsing(ErrorMissing::Area))
            } else if acc.palette is None {
                Err(VobSubError::MissingSubtitleParsing(ErrorMissing::Palette))
            } else if acc.alpha is None {
                Err(VobSubError::MissingSubtitleParsing(ErrorMissing::AlphaPalette))
            } else if acc.rle_offsets is None {
                Err(VobSubError::MissingSubtitleParsing(ErrorMissing::RleOffset))
            } else {
                let (o0, o1) = acc.rle_offsets->0;
                let end = ico + 2;
                if !(o0 <= o1 && o1 as int <= end && end <= data.len()) {
                    Err(
                        VobSubError::InvalidScanLineOffsets {
                            start_0: o0 as usize,
                            start_1: o1 as usize,
                            end: end as usize,
                        },
                    )
                } else {
                    Ok(
                        SpecSubtitle {
                            start_ms: base_ms + 10 * acc.start_date->0,
                            end_ms: match acc.end_date {
                                Option::Some(d) => Some(base_ms + 10 * d),
                                Option::None => None,
                            },
                            force: acc.force,
                            area: acc.area->0,
                            palette: acc.palette->0.reverse(),
                            alpha: acc.alpha->0.reverse(),
                            even: data.subrange(o0 as int, end),
                            odd: data.subrange(o1 as int, end),
                        },
                    )
                }
            },
        }
    }
}

/// Whether the accumulator's area, if set, is well-formed and carries
/// 12-bit coordinates.
pub open spec fn spec_acc_area_bounded(acc: SpecAccumulator) -> bool {
    acc.area is Some ==> {
        let v = acc.area->0.spec_values();
        &&& acc.area->0.wf()
        &&& v.x1 < 4096
        &&& v.x2 < 4096
        &&& v.y1 < 4096
        &&& v.y2 < 4096
    }
}

/// Parse a whole subpicture packet: read the initial control offset,
/// interpret the control chain, check the required parts, and hand back
/// the timing, the force flag and the still-compressed image.  The
/// palette and alpha quads of the image are reversed exactly once here,
/// so pixels index them directly.
#[verifier::rlimit(100)]
pub fn subtitle<'a>(raw_data: &'a [u8], base_time_ms: i64) -> (res: Result<
    (TimePoint, Option<TimePoint>, bool, VobSubRleImage<'a>),
    VobSubError,
>)
    requires
        0 <= base_time_ms,
        base_time_ms + 655350 <= i64::MAX,
    ensures
        match spec_subtitle(raw_data@, base_time_ms as int) {
            Result::Ok(s) => {
                &&& res is Ok
                &&& res->Ok_0.0.spec_msecs() == s.start_ms
                &&& match res->Ok_0.1 {
                    Option::Some(e) => s.end_ms == Some(e.spec_msecs()),
                    Option::None => s.end_ms is None,
                }
                &&& res->Ok_0.2 == s.force
                &&& res->Ok_0.3.spec_area() == s.area
                &&& res->Ok_0.3.spec_palette()@ == s.palette
                &&& res->Ok_0.3.spec_alpha()@ == s.alpha
                &&& res->Ok_0.3.spec_image_data().spec_even() == s.even
                &&& res->Ok_0.3.spec_image_data().spec_odd() == s.odd
                &&& res->Ok_0.3.spec_area().wf()
                &&& res->Ok_0.3.spec_area().spec_values().x2 < 4096
                &&& res->Ok_0.3.spec_area().spec_values().y2 < 4096
            },
            Result::Err(e) => res == Err::<
                (TimePoint, Option<TimePoint>, bool, VobSubRleImage<'a>),
                VobSubError,
            >(e),
        },
{
    if raw_data.len() < 2 {
        return Err(VobSubError::UnexpectedEndOfSubtitleData);
    }
    if raw_data.len() < 4 {
        return Err(VobSubError::BufferTooSmallForU16);
    }
    let ico = crate::bits::read_be16(raw_data, 2) as usize;

    let mut acc = ControlAccumulator {
        force: false,
        start_date: None,
        end_date: None,
        palette: None,
        alpha: None,
        area: None,
        rle_offsets: None,
    };
    let mut control_offset = ico;
    proof {
        assert(acc@ =~= spec_acc_init());
    }
    loop
        invariant_except_break
            spec_interp(raw_data@, ico as int, spec_acc_init()) == spec_interp(
                raw_data@,
                control_offset as int,
                acc@,
            ),
        invariant
            control_offset <= 65535,
            4 <= raw_data@.len(),
            ico as nat == spec_be16(raw_data@, 2),
            ico <= 65535,
            spec_acc_area_bounded(acc@),
        ensures
            4 <= raw_data@.len(),
            ico as nat == spec_be16(raw_data@, 2),
            ico <= 65535,
            spec_acc_area_bounded(acc@),
            spec_interp(raw_data@, ico as int, spec_acc_init()) == Ok::<
                SpecAccumulator,
                VobSubError,
            >(acc@),
        decreases 65536 - control_offset,
    {
        if control_offset >= raw_data.len() {
            return Err(
                VobSubError::ControlOffsetBiggerThanPacket {
                    offset: control_offset,
                    packet: raw_data.len(),
                },
            );
        }
        let (control, _seq_end) = match control_sequence(raw_data, control_offset) {
            Ok(v) => v,
            Err(e) => {
                return Err(VobSubError::ControlSequence(e));
            },
        };
        let ghost acc_before = acc@;
        let ghost cmds_spec = control.commands@.map_values(|c: ControlCommand| c@);
        proof {
            assert(cmds_spec.subrange(0, cmds_spec.len() as int) =~= cmds_spec);
        }
        let mut i: usize = 0;
        while i < control.commands.len()
            invariant
                i <= control.commands@.len(),
                cmds_spec == control.commands@.map_values(|c: ControlCommand| c@),
                spec_coords_bounded(cmds_spec),
                spec_acc_area_bounded(acc@),
                4 <= raw_data@.len(),
                ico as nat == spec_be16(raw_data@, 2),
                control_offset < raw_data@.len(),
                control_offset <= 65535,
                spec_control_sequence(raw_data@, control_offset as int) == Some(
                    (control.date, control.next, cmds_spec, _seq_end as int),
                ),
                spec_interp(raw_data@, ico as int, spec_acc_init()) == spec_interp(
                    raw_data@,
                    control_offset as int,
                    acc_before,
                ),
                spec_apply_commands(acc_before, control.date, cmds_spec) == spec_apply_commands(
                    acc@,
                    control.date,
                    cmds_spec.subrange(i as int, cmds_spec.len() as int),
                ),
            decreases control.commands@.len() - i,
        {
            let ghost before_step = acc@;
            let c = &control.commands[i];
            acc = match apply_command(acc, control.date, c) {
                Ok(a2) => a2,
                Err(e) => {
                    proof {
                        assert(cmds_spec.subrange(i as int, cmds_spec.len() as int)[0]
                            == cmds_spec[i as int]);
                        assert(spec_apply_commands(acc_before, control.date, cmds_spec) == Err::<
                            SpecAccumulator,
                            VobSubError,
                        >(e));
                    }
                    return Err(e);
                },
            };
            proof {
                if c@ is Coordinates {
                    crate::content::lemma_area_from_values(c@->Coordinates_0);
                }
                assert(cmds_spec.subrange(i as int, cmds_spec.len() as int).subrange(
                    1,
                    cmds_spec.len() - i,
                ) =~= cmds_spec.subrange(i as int + 1, cmds_spec.len() as int));
            }
            i = i + 1;
        }
        proof {
            assert(cmds_spec.subrange(
                cmds_spec.len() as int,
                cmds_spec.len() as int,
            ) =~= Seq::<SpecCommand>::empty());
        }
        let next_control_offset = control.next as usize;
        proof {
            assert(spec_apply_commands(acc_before, control.date, cmds_spec) == Ok::<
                SpecAccumulator,
                VobSubError,
            >(acc@));
        }
        if control_offset > next_control_offset {
            return Err(VobSubError::ControlOffsetWentBackwards);
        } else if control_offset == next_control_offset {
            proof {
                assert(spec_interp(raw_data@, control_offset as int, acc_before) == Ok::<
                    SpecAccumulator,
                    VobSubError,
                >(acc@));
            }
            break ;
        } else {
            control_offset = next_control_offset;
        }
    }

    let start_date = match acc.start_date {
        Some(d) => d,
        None => {
            return Err(VobSubError::MissingSubtitleParsing(ErrorMissing::StartTime));
        },
    };
    let area = match acc.area {
        Some(a) => a,
        None => {
            return Err(VobSubError::MissingSubtitleParsing(ErrorMissing::Area));
        },
    };
    let palette = match acc.palette {
        Some(p) => p,
        None => {
            return Err(VobSubError::MissingSubtitleParsing(ErrorMissing::Palette));
        },
    };
    let alpha = match acc.alpha {
        Some(a) => a,
        None => {
            return Err(VobSubError::MissingSubtitleParsing(ErrorMissing::AlphaPalette));
        },
    };
    let rle_offsets = match acc.rle_offsets {
        Some(o) => o,
        None => {
            return Err(VobSubError::MissingSubtitleParsing(ErrorMissing::RleOffset));
        },
    };

    let end = ico + 2;
    let palette_rev = [palette[3], palette[2], palette[1], palette[0]];
    let alpha_rev = [alpha[3], alpha[2], alpha[1], alpha[0]];
    proof {
        assert(palette_rev@ =~= palette@.reverse());
        assert(alpha_rev@ =~= alpha@.reverse());
    }
    let image_data = match crate::vobsub::img::VobSubRleImageData::new(
        raw_data,
        rle_offsets,
        end,
    ) {
        Ok(d) => d,
        Err(e) => {
            return Err(e);
        },
    };
    let rle_image = VobSubRleImage::new(area, palette_rev, alpha_rev, image_data);

    let start_time = crate::time::TimePoint::from_msecs(
        base_time_ms + 10 * (start_date as i64),
    );
    let end_time = match acc.end_date {
        Some(d) => Some(crate::time::TimePoint::from_msecs(base_time_ms + 10 * (d as i64))),
        None => None,
    };
    Ok((start_time, end_time, acc.force, rle_image))
}

/// Whether a command only repeats information the accumulator already
/// holds: a second palette, alpha, start-date or stop-date command once
/// the field is set, or a second valid coordinates command once the area
/// is set.
pub open spec fn spec_redundant_in(acc: SpecAccumulator, c: SpecCommand) -> bool {
    match c {
        SpecCommand::StartDate => acc.start_date is Some,
        SpecCommand::StopDate => acc.end_date is Some,
        SpecCommand::Palette(_) => acc.palette is Some,
        SpecCommand::Alpha(_) => acc.alpha is Some,
        SpecCommand::Coordinates(v) => acc.area is Some && area_values_valid(v),
        _ => false,
    }
}

/// A redundant command leaves the accumulator exactly as it was.
pub proof fn lemma_apply_redundant(acc: SpecAccumulator, date: u16, c: SpecCommand)
    requires
        spec_redundant_in(acc, c),
    ensures
        spec_apply_command(acc, date, c) == Ok::<SpecAccumulator, VobSubError>(acc),
{
}

/// Folding a command list splits over concatenation.
pub proof fn lemma_apply_commands_append(
    acc: SpecAccumulator,
    date: u16,
    a: Seq<SpecCommand>,
    b: Seq<SpecCommand>,
)
    ensures
        spec_apply_commands(acc, date, a + b) == match spec_apply_commands(acc, date, a) {
            Result::Ok(a2) => spec_apply_commands(a2, date, b),
            Result::Err(e) => Err(e),
        },
    decreases a.len(),
{
    if a.len() == 0 {
        assert(a + b =~= b);
    } else {
        assert((a + b)[0] == a[0]);
        match spec_apply_command(acc, date, a[0]) {
            Result::Ok(a2) => {
                assert((a + b).subrange(1, (a + b).len() as int) =~= a.subrange(
                    1,
                    a.len() as int,
                ) + b);
                lemma_apply_commands_append(a2, date, a.subrange(1, a.len() as int), b);
            },
            Result::Err(_) => {},
        }
    }
}

/// Interpreting control commands is idempotent on the accumulator:
/// dropping a duplicate palette, alpha, coordinates or timing command
/// from a valid command list leaves the result of the fold unchanged.
/// The duplicate is one whose field the commands before it already set.
pub proof fn lemma_control_dedup(
    acc: SpecAccumulator,
    date: u16,
    pre: Seq<SpecCommand>,
    c: SpecCommand,
    post: Seq<SpecCommand>,
)
    requires
        spec_apply_commands(acc, date, pre) is Ok,
        spec_redundant_in(spec_apply_commands(acc, date, pre)->Ok_0, c),
    ensures
        spec_apply_commands(acc, date, pre + seq![c] + post) == spec_apply_commands(
            acc,
            date,
            pre + post,
        ),
{
    let mid = spec_apply_commands(acc, date, pre)->Ok_0;
    lemma_apply_redundant(mid, date, c);
    lemma_apply_commands_append(acc, date, pre, seq![c] + post);
    lemma_apply_commands_append(acc, date, pre, post);
    lemma_apply_commands_append(mid, date, seq![c], post);
    assert(seq![c].subrange(1, 1) =~= Seq::<SpecCommand>::empty());
    assert((seq![c] + post).subrange(1, (seq![c] + post).len() as int) =~= post);
    assert(pre + seq![c] + post =~= pre + (seq![c] + post));
}

/// The end time a subtitle without an explicit one receives: five seconds
/// after its start, cut back to just before the next subtitle when one
/// follows sooner.
pub fn backfill_end(
    start: TimePoint,
    end: Option<TimePoint>,
    next_start: Option<TimePoint>,
) -> (r: TimePoint)
    requires
        start.spec_msecs() + 5000 <= i64::MAX,
        match next_start {
            Option::Some(ns) => i64::MIN < ns.spec_msecs(),
            Option::None => true,
        },
    ensures
        end is Some ==> r == end->0,
        end is None && next_start is None ==> r.spec_msecs() == start.spec_msecs() + 5000,
        end is None && next_start is Some ==> r.spec_msecs() == if next_start->0.spec_msecs() - 1
            < start.spec_msecs() + 5000 {
            next_start->0.spec_msecs() - 1
        } else {
            start.spec_msecs() + 5000
        },
{
    match end {
        Some(e) => e,
        None => {
            let latest = TimePoint::from_msecs(start.msecs() + 5000);
            match next_start {
                Some(ns) => {
                    let before_next = TimePoint::from_msecs(ns.msecs() - 1);
                    if before_next.msecs() < latest.msecs() {
                        before_next
                    } else {
                        latest
                    }
                },
                None => latest,
            }
        },
    }
}

/// The back-filled end of a subtitle without an explicit one lies
/// strictly after its start, at most five seconds after it, and before
/// the start of the subtitle that follows.  When the next subtitle starts
/// within a millisecond of this one, no such end exists; the law holds of
/// all other inputs.
pub proof fn lemma_backfill_bounds(start: TimePoint, next_start: Option<TimePoint>, r: TimePoint)
    requires
        start.spec_msecs() + 5000 <= i64::MAX,
        match next_start {
            Option::Some(ns) => ns.spec_msecs() > start.spec_msecs() + 1,
            Option::None => true,
        },
        r.spec_msecs() == match next_start {
            Option::Some(ns) => if ns.spec_msecs() - 1 < start.spec_msecs() + 5000 {
                ns.spec_msecs() - 1
            } else {
                start.spec_msecs() + 5000
            },
            Option::None => start.spec_msecs() + 5000,
        },
    ensures
        start.spec_msecs() < r.spec_msecs(),
        r.spec_msecs() <= start.spec_msecs() + 5000,
        next_start is Some ==> r.spec_msecs() < next_start->0.spec_msecs(),
{
}

/// An iterator over the subtitles of a `VobSub` (`.sub`) data stream.
/// Subtitles without an explicit end time receive one five seconds after
/// their start.
/// The stream positions of the packet the demultiplexer finds at `s`:
/// the start of its payload region and its fields.
pub open spec fn spec_found_payload(stream: Seq<u8>, s: int) -> Seq<u8> {
    crate::vobsub::pes::spec_packet_payload(stream, crate::vobsub::ps::spec_ps_end(stream, s))
}

/// Whether the packet found at `s` carries a subpicture whole: it has a
/// presentation time stamp, at least the two declared-size bytes, and
/// its declared size fits inside its own payload.
pub open spec fn spec_single_packet(stream: Seq<u8>, s: int) -> bool {
    let p = crate::vobsub::ps::spec_ps_end(stream, s) + 6;
    let payload = spec_found_payload(stream, s);
    &&& bits_val(stream, 8 * (p + 1), 2) != 0
    &&& payload.len() >= 2
    &&& spec_be16(payload, 0) <= payload.len()
}

/// The subpicture buffer the packet found at `s` assembles to, when it
/// carries the subpicture whole.
pub open spec fn spec_found_buffer(stream: Seq<u8>, s: int) -> Seq<u8> {
    let payload = spec_found_payload(stream, s);
    payload.subrange(0, spec_be16(payload, 0) as int)
}

/// The presentation time, in milliseconds, of the packet found at `s`.
pub open spec fn spec_found_base(stream: Seq<u8>, s: int) -> int {
    let p = crate::vobsub::ps::spec_ps_end(stream, s) + 6;
    (crate::vobsub::pes::spec_stamp_clock(stream, p + 3) / 90) as int
}

/// What a subtitle parsed out of the buffer `buf` at base time `base`
/// decodes to, in the eyes of a result holding a start time, an optional
/// end time and a decompressed image: parsing and decompression both
/// succeed and every field of the result is the one the bytes give.
pub open spec fn spec_raw_result(
    buf: Seq<u8>,
    base: int,
    r: Option<Result<(TimePoint, Option<TimePoint>, crate::vobsub::img::VobSubIndexedImage), VobSubError>>,
) -> bool {
    match spec_subtitle(buf, base) {
        Result::Err(e) => r == Some(
            Result::Err::<
                (TimePoint, Option<TimePoint>, crate::vobsub::img::VobSubIndexedImage),
                VobSubError,
            >(e),
        ),
        Result::Ok(sub) => match crate::vobsub::img::spec_decompress(
            sub.even,
            sub.odd,
            0,
            0,
            sub.area.spec_width() as nat,
            sub.area.spec_height() as nat,
        ) {
            Option::None => r is Some && r->0 is Err && (match r->0 {
                Result::Err(e2) => e2 is Image,
                _ => false,
            }),
            Option::Some(px) => match r {
                Option::Some(Result::Ok((start, end, img))) => {
                    &&& start.spec_msecs() == sub.start_ms
                    &&& match (end, sub.end_ms) {
                        (Option::Some(e2), Option::Some(em)) => e2.spec_msecs() == em,
                        (Option::None, Option::None) => true,
                        _ => false,
                    }
                    &&& img.spec_area() == sub.area
                    &&& img.spec_palette()@ == sub.palette
                    &&& img.spec_alpha()@ == sub.alpha
                    &&& img.spec_raw_image() == px
                },
                _ => false,
            },
        },
    }
}

pub struct VobsubParser<'a> {
    pes_packets: crate::vobsub::ps::PesPackets<'a>,
    pending: Option<(TimePoint, Option<TimePoint>, crate::vobsub::img::VobSubIndexedImage)>,
}

impl<'a> VobsubParser<'a> {
    /// The remaining demultiplexer input.
    pub closed spec fn spec_remaining(self) -> Seq<u8> {
        self.pes_packets@
    }

    /// The buffered subtitle the one-subtitle lookahead holds.
    pub closed spec fn spec_pending(self) -> Option<
        (TimePoint, Option<TimePoint>, crate::vobsub::img::VobSubIndexedImage),
    > {
        self.pending
    }

    /// Any buffered subtitle carries a well-formed image and a start time
    /// inside the presentation-time domain.
    pub open spec fn wf(self) -> bool {
        match self.spec_pending() {
            Option::Some((st, _, im)) => im.wf() && 0 <= st.spec_msecs() <= 96099067,
            Option::None => true,
        }
    }

    /// To parse a `VobSub` (`.sub`) file content: an iterator over the
    /// subtitles in this data stream.
    pub fn new(input: &'a [u8]) -> (r: Self)
        ensures
            r.spec_remaining() == input@,
            r.spec_pending() is None,
            r.wf(),
    {
        VobsubParser { pes_packets: crate::vobsub::ps::pes_packets(input), pending: None }
    }

    /// Read all the `PES` packets of one subpicture and assemble its
    /// payload: the first packet fixes the substream and the declared
    /// size, later packets of the same substream add bytes until the size
    /// is reached; surplus bytes are cut off.  Returns the presentation
    /// time in milliseconds beside the payload.
    pub fn next_sub_packet(&mut self) -> (r: Option<Result<(i64, Vec<u8>), VobSubError>>)
        ensures
            final(self).spec_pending() == old(self).spec_pending(),
            match r {
                Option::Some(Result::Ok((pts, buf))) => {
                    &&& 0 <= pts < 95443718
                    &&& buf@.len() >= 2 ==> buf@.len() == crate::bits::spec_be16(buf@, 0)
                },
                _ => true,
            },
            match crate::vobsub::ps::demux_resolve(old(self).spec_remaining(), 0) {
                crate::vobsub::ps::DemuxStep::Finished => r is None,
                crate::vobsub::ps::DemuxStep::Interrupted(_) => r == Some(
                    Result::Err::<(i64, Vec<u8>), VobSubError>(
                        VobSubError::PESPacket(ParseError::Incomplete),
                    ),
                ),
                crate::vobsub::ps::DemuxStep::Found(s) => {
                    let stream = old(self).spec_remaining();
                    let p = crate::vobsub::ps::spec_ps_end(stream, s) + 6;
                    let pd = crate::bits::bits_val(stream, 8 * (p + 1), 2);
                    let payload = crate::vobsub::pes::spec_packet_payload(
                        stream,
                        crate::vobsub::ps::spec_ps_end(stream, s),
                    );
                    let wanted = crate::bits::spec_be16(payload, 0);
                    &&& (r == Some(
                        Result::Err::<(i64, Vec<u8>), VobSubError>(
                            VobSubError::MissingTimingForSubtitle,
                        ),
                    ) <==> pd == 0)
                    &&& (r == Some(
                        Result::Err::<(i64, Vec<u8>), VobSubError>(VobSubError::PacketTooShort),
                    ) <==> pd != 0 && payload.len() < 2)
                    &&& (pd != 0 && payload.len() >= 2 && wanted <= payload.len() ==> r is Some
                        && r->0 is Ok)
                    &&& match r {
                        Option::Some(Result::Ok((pts, buf))) => {
                            &&& pd != 0
                            &&& payload.len() >= 2
                            &&& pts == crate::vobsub::pes::spec_stamp_clock(stream, p + 3) / 90
                            &&& buf@.len() == wanted
                            &&& (wanted <= payload.len() ==> buf@ == payload.subrange(
                                0,
                                wanted as int,
                            ))
                            &&& (wanted > payload.len() ==> buf@.subrange(
                                0,
                                payload.len() as int,
                            ) == payload)
                        },
                        _ => true,
                    }
                },
            },
    {
        let first = match self.pes_packets.next() {
            None => {
                return None;
            },
            Some(Err(e)) => {
                return Some(Err(e));
            },
            Some(Ok(p)) => p,
        };
        let ghost data0 = old(self).spec_remaining();
        let pts_clock = match &first.pes_packet.header_data.pts_dts {
            Some(td) => td.pts,
            None => {
                return Some(Err(VobSubError::MissingTimingForSubtitle));
            },
        };
        proof {
            crate::vobsub::ps::lemma_resolve_characterize(data0, 0);
            let s = crate::vobsub::ps::demux_resolve(data0, 0)->Found_0;
            let q = crate::vobsub::ps::spec_ps_end(data0, s) + 9;
            crate::vobsub::clock::lemma_clock_base_bound(data0, 8 * q + 4);
            let sc = crate::vobsub::pes::spec_stamp_clock(data0, q);
            let v = pts_clock.spec_value();
            let s64 = sc as u64;
            assert(v == s64 * 512 && s64 < 0x2_0000_0000 ==> (v >> 9) == s64 && (v >> 9) / 90
                < 95443718) by (bit_vector);
        }
        let base_ms = pts_clock.as_msecs();
        let substream_id = first.pes_packet.substream_id;
        if first.pes_packet.data.len() < 2 {
            return Some(Err(VobSubError::PacketTooShort));
        }
        let wanted = crate::bits::read_be16(first.pes_packet.data, 0) as usize;
        let mut sub_packet: Vec<u8> = Vec::new();
        sub_packet.extend_from_slice(first.pes_packet.data);
        while sub_packet.len() < wanted
            invariant
                self.spec_pending() == old(self).spec_pending(),
                sub_packet@.len() >= 2,
                wanted < 65536,
                wanted as nat == crate::bits::spec_be16(sub_packet@, 0),
                base_ms < 95443718,
                crate::vobsub::ps::demux_resolve(old(self).spec_remaining(), 0) is Found,
                ({
                    let stream = old(self).spec_remaining();
                    let s = crate::vobsub::ps::demux_resolve(stream, 0)->Found_0;
                    let p = crate::vobsub::ps::spec_ps_end(stream, s) + 6;
                    let payload = crate::vobsub::pes::spec_packet_payload(
                        stream,
                        crate::vobsub::ps::spec_ps_end(stream, s),
                    );
                    &&& crate::bits::bits_val(stream, 8 * (p + 1), 2) != 0
                    &&& base_ms as int == crate::vobsub::pes::spec_stamp_clock(stream, p + 3)
                        / 90
                    &&& payload.len() >= 2
                    &&& wanted as nat == crate::bits::spec_be16(payload, 0)
                    &&& sub_packet@.len() >= payload.len()
                    &&& sub_packet@.subrange(0, payload.len() as int) == payload
                }),
            decreases self.spec_remaining().len(), wanted - sub_packet@.len(),
        {
            let ghost rem0 = self.spec_remaining();
            let next = match self.pes_packets.next() {
                None => {
                    return None;
                },
                Some(Err(e)) => {
                    return Some(Err(e));
                },
                Some(Ok(p)) => p,
            };
            proof {
                crate::vobsub::ps::lemma_resolve_characterize(rem0, 0);
                match crate::vobsub::ps::demux_resolve(rem0, 0) {
                    crate::vobsub::ps::DemuxStep::Found(st) => {
                        crate::vobsub::ps::lemma_pes_end_in_range(rem0, st);
                    },
                    _ => {
                        assert(false);
                    },
                }
            }
            if next.pes_packet.substream_id != substream_id {
                continue ;
            }
            let ghost before = sub_packet@;
            sub_packet.extend_from_slice(next.pes_packet.data);
            proof {
                assert(sub_packet@[0] == before[0] && sub_packet@[1] == before[1]);
            }
        }
        if sub_packet.len() > wanted {
            sub_packet.truncate(wanted);
        }
        proof {
            let stream = old(self).spec_remaining();
            let s = crate::vobsub::ps::demux_resolve(stream, 0)->Found_0;
            let payload = crate::vobsub::pes::spec_packet_payload(
                stream,
                crate::vobsub::ps::spec_ps_end(stream, s),
            );
            if sub_packet@.len() <= payload.len() {
                assert(sub_packet@ =~= payload.subrange(0, sub_packet@.len() as int));
            } else {
                assert(sub_packet@.subrange(0, payload.len() as int) =~= payload);
            }
        }
        Some(Ok((base_ms as i64, sub_packet)))
    }

    /// Parse the next subtitle out of the stream without the end-time
    /// back-fill: assemble its subpicture, interpret the control data,
    /// and decompress the image.  The image is well-formed and the start
    /// time lies in the presentation-time domain.
    #[verifier::rlimit(100)]
    fn next_raw(&mut self) -> (r: Option<
        Result<
            (TimePoint, Option<TimePoint>, crate::vobsub::img::VobSubIndexedImage),
            VobSubError,
        >,
    >)
        ensures
            final(self).spec_pending() == old(self).spec_pending(),
            match r {
                Option::Some(Result::Ok((start, end, img))) => img.wf() && 0 <= start.spec_msecs()
                    <= 96099067,
                _ => true,
            },
            match crate::vobsub::ps::demux_resolve(old(self).spec_remaining(), 0) {
                crate::vobsub::ps::DemuxStep::Finished => r is None,
                crate::vobsub::ps::DemuxStep::Interrupted(_) => r == Some(
                    Result::Err::<
                        (TimePoint, Option<TimePoint>, crate::vobsub::img::VobSubIndexedImage),
                        VobSubError,
                    >(VobSubError::PESPacket(ParseError::Incomplete)),
                ),
                crate::vobsub::ps::DemuxStep::Found(s) => spec_single_packet(
                    old(self).spec_remaining(),
                    s,
                ) ==> spec_raw_result(
                    spec_found_buffer(old(self).spec_remaining(), s),
                    spec_found_base(old(self).spec_remaining(), s),
                    r,
                ),
            },
    {
        let (base_time, sub_packet) = match self.next_sub_packet() {
            None => {
                return None;
            },
            Some(Err(e)) => {
                return Some(Err(e));
            },
            Some(Ok(v)) => v,
        };
        let (start_time, end_time, _force, rle_image) = match subtitle(
            sub_packet.as_slice(),
            base_time,
        ) {
            Ok(v) => v,
            Err(e) => {
                return Some(Err(e));
            },
        };
        let size = rle_image.size();
        proof {
            assert(size.w * size.h <= 4096 * 4096) by (nonlinear_arith)
                requires
                    0 <= size.w <= 4096 && 0 <= size.h <= 4096,
            ;
        }
        let pixels = match crate::vobsub::img::decompress(size, rle_image.raw_data()) {
            Ok(p) => p,
            Err(e) => {
                return Some(Err(VobSubError::Image(e)));
            },
        };
        let img = crate::vobsub::img::VobSubIndexedImage::new(
            rle_image.area(),
            *rle_image.palette(),
            *rle_image.alpha(),
            pixels,
        );
        Some(Ok((start_time, end_time, img)))
    }

    /// Parse the next subtitle of the stream.  Every emitted image is
    /// well-formed: its pixel buffer covers its area exactly and every
    /// pixel is a 2-bit value.  A subtitle without an explicit end time
    /// receives one by the one-subtitle lookahead: five seconds after its
    /// start, cut back to just before the next subtitle when one follows
    /// sooner; the looked-ahead subtitle is buffered and emitted next,
    /// and a parse error on it surfaces at once without touching the
    /// buffered one.
    pub fn next(&mut self) -> (r: Option<
        Result<(crate::time::TimeSpan, crate::vobsub::img::VobSubIndexedImage), VobSubError>,
    >)
        requires
            old(self).wf(),
        ensures
            final(self).wf(),
            match r {
                Option::Some(Result::Ok((span, img))) => img.wf(),
                _ => true,
            },
            match old(self).spec_pending() {
                Option::Some((st, Option::Some(e), im)) => r == Some(
                    Result::Ok::<
                        (crate::time::TimeSpan, crate::vobsub::img::VobSubIndexedImage),
                        VobSubError,
                    >((crate::time::TimeSpan { start: st, end: e }, im)),
                ) && final(self).spec_pending() is None,
                Option::Some((st, Option::None, im)) => {
                    &&& r is Some
                    &&& match r {
                        Option::Some(Result::Ok((span, img))) => span.start == st && img == im
                            && span.end.spec_msecs() <= st.spec_msecs() + 5000,
                        Option::Some(Result::Err(_)) => final(self).spec_pending() == old(
                            self,
                        ).spec_pending(),
                        Option::None => false,
                    }
                },
                Option::None => match crate::vobsub::ps::demux_resolve(
                    old(self).spec_remaining(),
                    0,
                ) {
                    crate::vobsub::ps::DemuxStep::Finished => r is None,
                    crate::vobsub::ps::DemuxStep::Interrupted(_) => r == Some(
                        Result::Err::<
                            (crate::time::TimeSpan, crate::vobsub::img::VobSubIndexedImage),
                            VobSubError,
                        >(VobSubError::PESPacket(ParseError::Incomplete)),
                    ),
                    crate::vobsub::ps::DemuxStep::Found(s) => spec_single_packet(
                        old(self).spec_remaining(),
                        s,
                    ) ==> {
                        let buf = spec_found_buffer(old(self).spec_remaining(), s);
                        let base = spec_found_base(old(self).spec_remaining(), s);
                        match spec_subtitle(buf, base) {
                            Result::Err(e) => r == Some(
                                Result::Err::<
                                    (
                                        crate::time::TimeSpan,
                                        crate::vobsub::img::VobSubIndexedImage,
                                    ),
                                    VobSubError,
                                >(e),
                            ),
                            Result::Ok(sub) => match crate::vobsub::img::spec_decompress(
                                sub.even,
                                sub.odd,
                                0,
                                0,
                                sub.area.spec_width() as nat,
                                sub.area.spec_height() as nat,
                            ) {
                                Option::None => r is Some && r->0 is Err,
                                Option::Some(px) => match r {
                                    Option::Some(Result::Ok((span, img))) => {
                                        &&& span.start.spec_msecs() == sub.start_ms
                                        &&& img.spec_area() == sub.area
                                        &&& img.spec_palette()@ == sub.palette
                                        &&& img.spec_alpha()@ == sub.alpha
                                        &&& img.spec_raw_image() == px
                                        &&& (match sub.end_ms {
                                            Option::Some(em) => span.end.spec_msecs() == em,
                                            Option::None => match final(self).spec_pending() {
                                                Option::None => span.end.spec_msecs()
                                                    == sub.start_ms + 5000,
                                                Option::Some((st2, _, _)) => span.end.spec_msecs()
                                                    == if st2.spec_msecs() - 1 < sub.start_ms
                                                    + 5000 {
                                                    st2.spec_msecs() - 1
                                                } else {
                                                    sub.start_ms + 5000
                                                },
                                            },
                                        })
                                    },
                                    Option::Some(Result::Err(_)) => sub.end_ms is None
                                        && match final(self).spec_pending() {
                                        Option::Some((st2, e2, _)) => st2.spec_msecs()
                                            == sub.start_ms && e2 is None,
                                        Option::None => false,
                                    },
                                    Option::None => false,
                                },
                            },
                        }
                    },
                },
            },
    {
        let mut taken: Option<
            (TimePoint, Option<TimePoint>, crate::vobsub::img::VobSubIndexedImage),
        > = None;
        core::mem::swap(&mut taken, &mut self.pending);
        let current = match taken {
            Some(c) => c,
            None => match self.next_raw() {
                None => {
                    return None;
                },
                Some(Err(e)) => {
                    return Some(Err(e));
                },
                Some(Ok(v)) => v,
            },
        };
        let (start_time, end_opt, img) = current;
        match end_opt {
            Some(end) => Some(Ok((crate::time::TimeSpan::new(start_time, end), img))),
            None => {
                // The end time is missing: look one subtitle ahead to
                // place it, keeping whatever was read for the next call.
                match self.next_raw() {
                    None => {
                        let end = backfill_end(start_time, None, None);
                        Some(Ok((crate::time::TimeSpan::new(start_time, end), img)))
                    },
                    Some(Err(e)) => {
                        self.pending = Some((start_time, None, img));
                        Some(Err(e))
                    },
                    Some(Ok(nxt)) => {
                        let end = backfill_end(start_time, None, Some(nxt.0));
                        self.pending = Some(nxt);
                        Some(Ok((crate::time::TimeSpan::new(start_time, end), img)))
                    },
                }
            },
        }
    }
}

} // verus!
