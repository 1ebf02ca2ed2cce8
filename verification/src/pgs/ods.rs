//! Object Definition Segments: the fragments an image's run-length data
//! arrives in, and their reassembly into one complete object.

use crate::bits::spec_be16;
use crate::pgs::u24::u24;
use vstd::prelude::*;

verus! {

/// Error of Object Definition Segment handling.
#[derive(Debug, Clone, Copy, PartialEq, Eq, Structural)]
pub enum OdsError {
    /// The sequence flag byte was cut off by the end of the stream.
    LastInSequenceFlagReadData,
    /// The sequence flag byte holds none of the three known values.
    LastInSequenceFlagInvalidValue {
        /// The offending byte.
        value: u8,
    },
    /// The sequence flag does not fit the assembly state: a first
    /// fragment while one is pending, or a continuation with none.
    LastInSequenceFlagNotManaged(LastInSequenceFlag),
    /// The object id and version bytes were cut off.
    SkipObjectIdAndVerNum,
    /// The object data length field was cut off.
    ReadObjectDataLength,
    /// The width field was cut off.
    ReadWidth,
    /// The height field was cut off.
    ReadHeight,
    /// The object bytes of this fragment were cut off.
    ObjectData {
        /// The size of the read that failed.
        buff_size: usize,
    },
    /// The declared sizes disagree: the segment size does not match the
    /// object data length, or a continuation overruns the declared data.
    InvalidDataSize {
        /// The size of this segment's body.
        segment_size: usize,
        /// The declared object data length.
        data_length: usize,
    },
}

/// The big-endian 24-bit value of the three bytes at byte offset `i`.
pub open spec fn spec_be24(data: Seq<u8>, i: int) -> int {
    data[i] as int * 0x10000 + data[i + 1] as int * 0x100 + data[i + 2] as int
}

/// Where a segment stands in its object's fragment sequence.
#[derive(Debug, Clone, Copy, PartialEq, Eq, Structural)]
pub enum LastInSequenceFlag {
    /// The final fragment of a split object.
    Last,
    /// The first fragment of a split object.
    First,
    /// A whole object in one fragment.
    FirstAndLast,
}

/// The sequence flag a byte denotes, if any.
pub open spec fn spec_sequence_flag(value: u8) -> Option<LastInSequenceFlag> {
    if value == 0x40 {
        Some(LastInSequenceFlag::Last)
    } else if value == 0x80 {
        Some(LastInSequenceFlag::First)
    } else if value == 0xC0 {
        Some(LastInSequenceFlag::FirstAndLast)
    } else {
        None
    }
}

impl LastInSequenceFlag {
    /// Decode the sequence flag byte.
    pub fn try_from(value: u8) -> (res: Result<Self, OdsError>)
        ensures
            match spec_sequence_flag(value) {
                Option::Some(f) => res == Ok::<LastInSequenceFlag, OdsError>(f),
                Option::None => res == Err::<LastInSequenceFlag, OdsError>(
                    OdsError::LastInSequenceFlagInvalidValue { value },
                ),
            },
    {
        match value {
            0x40 => Ok(LastInSequenceFlag::Last),
            0x80 => Ok(LastInSequenceFlag::First),
            0xC0 => Ok(LastInSequenceFlag::FirstAndLast),
            _ => Err(OdsError::LastInSequenceFlagInvalidValue { value }),
        }
    }

    /// Read the sequence flag at byte `pos`.
    pub fn read(data: &[u8], pos: usize) -> (res: Result<Self, OdsError>)
        ensures
            pos >= data@.len() ==> res == Err::<LastInSequenceFlag, OdsError>(
                OdsError::LastInSequenceFlagReadData,
            ),
            pos < data@.len() ==> res == match spec_sequence_flag(data@[pos as int]) {
                Option::Some(f) => Ok::<LastInSequenceFlag, OdsError>(f),
                Option::None => Err::<LastInSequenceFlag, OdsError>(
                    OdsError::LastInSequenceFlagInvalidValue { value: data@[pos as int] },
                ),
            },
    {
        if pos >= data.len() {
            return Err(OdsError::LastInSequenceFlagReadData);
        }
        LastInSequenceFlag::try_from(data[pos])
    }
}

/// An object under reassembly, or a completed one.
#[derive(Debug)]
pub enum ObjectDefinitionSegment {
    /// A first fragment waiting for its continuation.
    Partial {
        /// The object so far: sizes and a buffer partly filled.
        data: ObjectDefinitionSegmentData,
        /// How many object bytes have been filled in.
        amount_of_data_read: usize,
    },
    /// A fully reassembled object.
    Complete(ObjectDefinitionSegmentData),
}

/// The graphics object an Object Definition Segment sequence carries:
/// its size and its run-length encoded image data.
#[derive(Debug, Clone, PartialEq, Eq)]
pub struct ObjectDefinitionSegmentData {
    /// Width of the image in pixels.
    pub width: u16,
    /// Height of the image in pixels.
    pub height: u16,
    /// The image data, compressed with run-length encoding.
    pub object_data: Vec<u8>,
}

/// Whether processing an Object Definition Segment of `segments_size`
/// body bytes at byte `pos` against the pending state succeeds, and with
/// which error it fails: the checks in the order the parser makes them.
pub open spec fn spec_ods_check(
    data: Seq<u8>,
    pos: int,
    ss: int,
    cur: Option<ObjectDefinitionSegment>,
) -> Result<(), OdsError> {
    if data.len() - pos < 3 {
        Err(OdsError::SkipObjectIdAndVerNum)
    } else if pos + 3 >= data.len() {
        Err(OdsError::LastInSequenceFlagReadData)
    } else {
        match spec_sequence_flag(data[pos + 3]) {
            Option::None => Err(
                OdsError::LastInSequenceFlagInvalidValue { value: data[pos + 3] },
            ),
            Option::Some(flag) => match cur {
                Option::None => if !(flag is First || flag is FirstAndLast) {
                    Err(OdsError::LastInSequenceFlagNotManaged(flag))
                } else if data.len() - (pos + 4) < 3 {
                    Err(OdsError::ReadObjectDataLength)
                } else if data.len() - (pos + 7) < 2 {
                    Err(OdsError::ReadWidth)
                } else if data.len() - (pos + 9) < 2 {
                    Err(OdsError::ReadHeight)
                } else {
                    let dl = spec_be24(data, pos + 4);
                    if dl < 4 || ss < 11 || ss - 11 > dl - 4 || (flag is FirstAndLast && ss - 11
                        != dl - 4) {
                        Err(
                            OdsError::InvalidDataSize {
                                segment_size: ss as usize,
                                data_length: dl as usize,
                            },
                        )
                    } else if data.len() - (pos + 11) < ss - 11 {
                        Err(OdsError::ObjectData { buff_size: (ss - 11) as usize })
                    } else {
                        Ok(())
                    }
                },
                Option::Some(ObjectDefinitionSegment::Partial { data: d0, amount_of_data_read }) => if !(
                flag is Last) {
                    Err(OdsError::LastInSequenceFlagNotManaged(flag))
                } else if ss < 4 || d0.object_data@.len() - amount_of_data_read < ss - 4 {
                    Err(
                        OdsError::InvalidDataSize {
                            segment_size: ss as usize,
                            data_length: d0.object_data@.len() as usize,
                        },
                    )
                } else if data.len() - (pos + 4) < ss - 4 {
                    Err(OdsError::ObjectData { buff_size: (ss - 4) as usize })
                } else {
                    Ok(())
                },
                Option::Some(ObjectDefinitionSegment::Complete(_)) => Err(
                    OdsError::LastInSequenceFlagNotManaged(flag),
                ),
            },
        }
    }
}

/// Process the Object Definition Segment of `segments_size` body bytes at
/// byte `pos`, against the pending fragment state.  A `First` fragment
/// opens a partial object, `FirstAndLast` completes one outright (its
/// segment size must match the declared data length exactly), and `Last`
/// fills the rest of the pending buffer.  Any other pairing of flag and
/// state fails.
pub fn read(
    data: &[u8],
    pos: usize,
    segments_size: usize,
    current_ods: Option<ObjectDefinitionSegment>,
) -> (res: Result<(ObjectDefinitionSegment, usize), OdsError>)
    requires
        pos <= data@.len(),
        match current_ods {
            Option::Some(ObjectDefinitionSegment::Partial { data: d, amount_of_data_read }) => {
                &&& d.object_data@.len() <= 0xffffff
                &&& amount_of_data_read <= d.object_data@.len()
            },
            _ => true,
        },
    ensures
        res is Ok <==> spec_ods_check(data@, pos as int, segments_size as int, current_ods)
            is Ok,
        res is Err ==> spec_ods_check(data@, pos as int, segments_size as int, current_ods)
            == Err::<(), OdsError>(res->Err_0),
        match res {
            Result::Ok((ods, end)) => {
                &&& pos <= end <= data@.len()
                &&& match ods {
                    ObjectDefinitionSegment::Complete(d) => d.object_data@.len() <= 0xffffff,
                    ObjectDefinitionSegment::Partial { data: d, amount_of_data_read } => {
                        &&& d.object_data@.len() <= 0xffffff
                        &&& amount_of_data_read <= d.object_data@.len()
                    },
                }
                &&& match current_ods {
                    Option::None => {
                        let dl = spec_be24(data@, pos as int + 4);
                        let data_size = dl - 4;
                        let read_size = segments_size - 11;
                        &&& end == pos + 11 + read_size
                        &&& match ods {
                            ObjectDefinitionSegment::Complete(d) => {
                                &&& data@[pos as int + 3] == 0xC0
                                &&& read_size == data_size
                                &&& d.width as nat == spec_be16(data@, pos as int + 7)
                                &&& d.height as nat == spec_be16(data@, pos as int + 9)
                                &&& d.object_data@ == data@.subrange(
                                    pos as int + 11,
                                    pos + 11 + read_size,
                                )
                            },
                            ObjectDefinitionSegment::Partial {
                                data: d,
                                amount_of_data_read,
                            } => {
                                &&& data@[pos as int + 3] == 0x80
                                &&& amount_of_data_read == read_size
                                &&& d.width as nat == spec_be16(data@, pos as int + 7)
                                &&& d.height as nat == spec_be16(data@, pos as int + 9)
                                &&& d.object_data@.len() == data_size
                                &&& d.object_data@.subrange(0, read_size as int) == data@.subrange(
                                    pos as int + 11,
                                    pos + 11 + read_size,
                                )
                                &&& forall|i: int|
                                    read_size <= i < data_size ==> d.object_data@[i] == 0
                            },
                        }
                    },
                    Option::Some(ObjectDefinitionSegment::Partial {
                        data: d0,
                        amount_of_data_read: n0,
                    }) => {
                        let to_read = segments_size - 4;
                        &&& data@[pos as int + 3] == 0x40
                        &&& end == pos + 4 + to_read
                        &&& match ods {
                            ObjectDefinitionSegment::Complete(d) => {
                                &&& d.width == d0.width
                                &&& d.height == d0.height
                                &&& d.object_data@ == d0.object_data@.subrange(0, n0 as int)
                                    + data@.subrange(pos as int + 4, pos + 4 + to_read)
                                    + d0.object_data@.subrange(
                                    n0 + to_read,
                                    d0.object_data@.len() as int,
                                )
                            },
                            _ => false,
                        }
                    },
                    Option::Some(ObjectDefinitionSegment::Complete(_)) => false,
                }
            },
            Result::Err(_) => true,
        },
{
    let n = data.len();
    if n - pos < 3 {
        return Err(OdsError::SkipObjectIdAndVerNum);
    }
    let flag = LastInSequenceFlag::read(data, pos + 3)?;
    let after_flag = pos + 4;

    match current_ods {
        None => {
            if !(matches!(flag, LastInSequenceFlag::First) || matches!(
                flag,
                LastInSequenceFlag::FirstAndLast,
            )) {
                return Err(OdsError::LastInSequenceFlagNotManaged(flag));
            }
            if n - after_flag < 3 {
                return Err(OdsError::ReadObjectDataLength);
            }
            let dl = u24::from_bytes([data[after_flag], data[after_flag + 1], data[after_flag + 2]]);
            let data_length = dl.to_u32() as usize;
            if n - (after_flag + 3) < 2 {
                return Err(OdsError::ReadWidth);
            }
            let width = crate::bits::read_be16(data, after_flag + 3);
            if n - (after_flag + 5) < 2 {
                return Err(OdsError::ReadHeight);
            }
            let height = crate::bits::read_be16(data, after_flag + 5);
            // The declared object data length counts the four width and
            // height bytes; the image payload is the rest.
            if data_length < 4 {
                return Err(
                    OdsError::InvalidDataSize { segment_size: segments_size, data_length },
                );
            }
            let data_size = data_length - 4;
            if segments_size < 11 {
                return Err(
                    OdsError::InvalidDataSize { segment_size: segments_size, data_length },
                );
            }
            let read_data_size = segments_size - 11;
            if read_data_size > data_size {
                return Err(
                    OdsError::InvalidDataSize { segment_size: segments_size, data_length },
                );
            }
            if matches!(flag, LastInSequenceFlag::FirstAndLast) && read_data_size != data_size {
                // A whole object in one fragment must declare sizes that
                // agree: the segment holds exactly the declared data.
                return Err(
                    OdsError::InvalidDataSize { segment_size: segments_size, data_length },
                );
            }
            let body = pos + 11;
            if n - body < read_data_size {
                return Err(OdsError::ObjectData { buff_size: read_data_size });
            }
            let mut object_data: Vec<u8> = Vec::new();
            let mut k: usize = 0;
            while k < read_data_size
                invariant
                    k <= read_data_size,
                    n == data@.len(),
                    body + read_data_size <= n,
                    object_data@ == data@.subrange(body as int, body + k),
                decreases read_data_size - k,
            {
                object_data.push(data[body + k]);
                proof {
                    assert(object_data@ =~= data@.subrange(body as int, body + k + 1));
                }
                k = k + 1;
            }
            let mut j: usize = read_data_size;
            while j < data_size
                invariant
                    read_data_size <= j <= data_size,
                    data_size <= 0xffffff,
                    object_data@.len() == j,
                    body + read_data_size <= data@.len(),
                    object_data@.subrange(0, read_data_size as int) == data@.subrange(
                        body as int,
                        body + read_data_size,
                    ),
                    forall|i: int| read_data_size <= i < j ==> object_data@[i] == 0,
                decreases data_size - j,
            {
                object_data.push(0);
                proof {
                    assert(object_data@.subrange(0, read_data_size as int) =~= data@.subrange(
                        body as int,
                        body + read_data_size,
                    ));
                }
                j = j + 1;
            }
            let obj = ObjectDefinitionSegmentData { width, height, object_data };
            if matches!(flag, LastInSequenceFlag::FirstAndLast) {
                Ok((ObjectDefinitionSegment::Complete(obj), body + read_data_size))
            } else {
                Ok(
                    (
                        ObjectDefinitionSegment::Partial {
                            data: obj,
                            amount_of_data_read: read_data_size,
                        },
                        body + read_data_size,
                    ),
                )
            }
        },
        Some(ObjectDefinitionSegment::Partial { data: mut obj, amount_of_data_read }) => {
            if !matches!(flag, LastInSequenceFlag::Last) {
                return Err(OdsError::LastInSequenceFlagNotManaged(flag));
            }
            if segments_size < 4 {
                return Err(
                    OdsError::InvalidDataSize {
                        segment_size: segments_size,
                        data_length: obj.object_data.len(),
                    },
                );
            }
            let to_read = segments_size - 4;
            if obj.object_data.len() - amount_of_data_read < to_read {
                return Err(
                    OdsError::InvalidDataSize {
                        segment_size: segments_size,
                        data_length: obj.object_data.len(),
                    },
                );
            }
            if n - after_flag < to_read {
                return Err(OdsError::ObjectData { buff_size: to_read });
            }
            let mut k: usize = 0;
            let ghost original_data = obj.object_data@;
            let ghost obj_len = obj.object_data@.len();
            let ghost w0 = obj.width;
            let ghost h0 = obj.height;
            while k < to_read
                invariant
                    obj.width == w0,
                    obj.height == h0,
                    k <= to_read,
                    n == data@.len(),
                    after_flag + to_read <= n,
                    amount_of_data_read + to_read <= obj.object_data@.len(),
                    obj.object_data@.len() == obj_len,
                    obj_len <= 0xffffff,
                    obj.object_data@.subrange(0, amount_of_data_read as int)
                        == original_data.subrange(0, amount_of_data_read as int),
                    obj.object_data@.subrange(amount_of_data_read as int, amount_of_data_read + k)
                        == data@.subrange(after_flag as int, after_flag + k),
                    obj.object_data@.subrange(amount_of_data_read + to_read, obj_len as int)
                        == original_data.subrange(amount_of_data_read + to_read, obj_len as int),
                decreases to_read - k,
            {
                let idx = amount_of_data_read + k;
                obj.object_data.set(idx, data[after_flag + k]);
                proof {
                    assert(obj.object_data@.subrange(0, amount_of_data_read as int)
                        =~= original_data.subrange(0, amount_of_data_read as int));
                    assert(obj.object_data@.subrange(
                        amount_of_data_read as int,
                        amount_of_data_read + k + 1,
                    ) =~= data@.subrange(after_flag as int, after_flag + k + 1));
                    assert(obj.object_data@.subrange(amount_of_data_read + to_read, obj_len as int)
                        =~= original_data.subrange(
                        amount_of_data_read + to_read,
                        obj_len as int,
                    ));
                }
                k = k + 1;
            }
            proof {
                assert(obj.object_data@ =~= original_data.subrange(0, amount_of_data_read as int)
                    + data@.subrange(after_flag as int, after_flag + to_read)
                    + original_data.subrange(amount_of_data_read + to_read, obj_len as int));
            }
            Ok((ObjectDefinitionSegment::Complete(obj), after_flag + to_read))
        },
        Some(ObjectDefinitionSegment::Complete(_)) => Err(
            OdsError::LastInSequenceFlagNotManaged(flag),
        ),
    }
}

} // verus!
