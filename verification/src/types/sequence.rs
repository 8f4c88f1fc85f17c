use crate::encoder::error::Error as EncodeError;
use crate::parser::primitives::{Parsed, Parser};
use crate::types::chunk::utils::Literal;
use crate::types::extent::{Extent, ExtentModel};
use crate::types::materialize::{lemma_append_assoc, FloatBits, Lossless, Materialized, Reparsable};
use vstd::prelude::*;

verus! {

/// Amount of bytes one sequence record takes.
pub const SEQUENCE_SIZE: usize = 132;

/// Length of the name of a sequence.
pub const SEQUENCE_NAME_LENGTH: usize = 80;

/// A named animation: the interval of frames that it covers, and how it is
/// played.
#[derive(Debug, Clone, PartialEq)]
pub struct Sequence {
    pub name: Literal<SEQUENCE_NAME_LENGTH>,
    pub interval: [u32; 2],
    pub move_speed: FloatBits,
    pub flags: u32,
    pub rarity: FloatBits,
    pub sync_point: u32,
    pub extent: Extent,
}

/// What a value of [`Sequence`] stands for in specifications.
pub struct SequenceModel {
    pub name: Seq<char>,
    pub interval: Seq<u32>,
    pub move_speed: FloatBits,
    pub flags: u32,
    pub rarity: FloatBits,
    pub sync_point: u32,
    pub extent: ExtentModel,
}

impl Materialized for Sequence {
    type Version = u32;

    type Model = SequenceModel;

    open spec fn model(&self) -> SequenceModel {
        SequenceModel {
            name: self.name.model(),
            interval: self.interval.model(),
            move_speed: self.move_speed.model(),
            flags: self.flags.model(),
            rarity: self.rarity.model(),
            sync_point: self.sync_point.model(),
            extent: self.extent.model(),
        }
    }

    open spec fn spec_parse(version: Option<u32>, input: Seq<u8>) -> Parsed<SequenceModel> {
        match <Literal<SEQUENCE_NAME_LENGTH>>::spec_parse(None, input) {
            Ok((rest, name)) => match <[u32; 2]>::spec_parse(None, rest) {
                Ok((rest, interval)) => match FloatBits::spec_parse(None, rest) {
                    Ok((rest, move_speed)) => match u32::spec_parse(None, rest) {
                        Ok((rest, flags)) => match FloatBits::spec_parse(None, rest) {
                            Ok((rest, rarity)) => match u32::spec_parse(None, rest) {
                                Ok((rest, sync_point)) => match Extent::spec_parse(None, rest) {
                                    Ok((rest, extent)) => Ok((rest, SequenceModel {
                                        name,
                                        interval,
                                        move_speed,
                                        flags,
                                        rarity,
                                        sync_point,
                                        extent,
                                    })),
                                    Err(e) => Err(e),
                                },
                                Err(e) => Err(e),
                            },
                            Err(e) => Err(e),
                        },
                        Err(e) => Err(e),
                    },
                    Err(e) => Err(e),
                },
                Err(e) => Err(e),
            },
            Err(e) => Err(e),
        }
    }

    open spec fn wire(m: SequenceModel) -> Seq<u8> {
        <Literal<SEQUENCE_NAME_LENGTH>>::wire(m.name) + (<[u32; 2]>::wire(m.interval) + (FloatBits::wire(m.move_speed) + (u32::wire(m.flags) + (FloatBits::wire(m.rarity) + (u32::wire(m.sync_point) + (Extent::wire(m.extent)))))))
    }

    open spec fn encode_error(m: SequenceModel) -> Option<EncodeError> {
        match <Literal<SEQUENCE_NAME_LENGTH>>::encode_error(m.name) {
            Some(e) => Some(e),
            None => match <[u32; 2]>::encode_error(m.interval) {
                Some(e) => Some(e),
                None => match FloatBits::encode_error(m.move_speed) {
                    Some(e) => Some(e),
                    None => match u32::encode_error(m.flags) {
                        Some(e) => Some(e),
                        None => match FloatBits::encode_error(m.rarity) {
                            Some(e) => Some(e),
                            None => match u32::encode_error(m.sync_point) {
                                Some(e) => Some(e),
                                None => Extent::encode_error(m.extent),
                            },
                        },
                    },
                },
            },
        }
    }

    fn parse_versioned<'a>(version: Option<u32>, input: &'a [u8]) -> (r: Parser<'a, Sequence>) {
        let (input, name) = <Literal<SEQUENCE_NAME_LENGTH>>::parse(input)?;
        let (input, interval) = <[u32; 2]>::parse(input)?;
        let (input, move_speed) = FloatBits::parse(input)?;
        let (input, flags) = u32::parse(input)?;
        let (input, rarity) = FloatBits::parse(input)?;
        let (input, sync_point) = u32::parse(input)?;
        let (input, extent) = Extent::parse(input)?;
        Ok((input, Sequence {
            name,
            interval,
            move_speed,
            flags,
            rarity,
            sync_point,
            extent,
        }))
    }

    fn encode(&self, output: &mut Vec<u8>) -> (r: Result<(), EncodeError>) {
        let ghost p0 = output@;
        self.name.encode(output)?;
        let ghost p1 = output@;
        self.interval.encode(output)?;
        let ghost p2 = output@;
        self.move_speed.encode(output)?;
        let ghost p3 = output@;
        self.flags.encode(output)?;
        let ghost p4 = output@;
        self.rarity.encode(output)?;
        let ghost p5 = output@;
        self.sync_point.encode(output)?;
        let ghost p6 = output@;
        self.extent.encode(output)?;
        proof {
            let m = self.model();
            let w1 = <Literal<SEQUENCE_NAME_LENGTH>>::wire(m.name);
            let w2 = <[u32; 2]>::wire(m.interval);
            let w3 = FloatBits::wire(m.move_speed);
            let w4 = u32::wire(m.flags);
            let w5 = FloatBits::wire(m.rarity);
            let w6 = u32::wire(m.sync_point);
            let w7 = Extent::wire(m.extent);
            let s6 = w6 + w7;
            let s5 = w5 + s6;
            let s4 = w4 + s5;
            let s3 = w3 + s4;
            let s2 = w2 + s3;
            lemma_append_assoc(p5, w6, w7);
            lemma_append_assoc(p4, w5, s6);
            lemma_append_assoc(p3, w4, s5);
            lemma_append_assoc(p2, w3, s4);
            lemma_append_assoc(p1, w2, s3);
            lemma_append_assoc(p0, w1, s2);
        }
        Ok(())
    }
}

impl Lossless for Sequence {
    open spec fn faithful(m: SequenceModel) -> bool {
        <Literal<SEQUENCE_NAME_LENGTH>>::faithful(m.name) && <[u32; 2]>::faithful(m.interval) && FloatBits::faithful(m.move_speed) && u32::faithful(m.flags) && FloatBits::faithful(m.rarity) && u32::faithful(m.sync_point) && Extent::faithful(m.extent)
    }

    #[verifier::rlimit(50)]
    proof fn lemma_parse_wire(version: Option<u32>, input: Seq<u8>) {
        <Literal<SEQUENCE_NAME_LENGTH>>::lemma_parse_wire(None, input);
        match <Literal<SEQUENCE_NAME_LENGTH>>::spec_parse(None, input) {
            Ok((rest1, name)) => {
                assert(<Literal<SEQUENCE_NAME_LENGTH>>::faithful(name) ==> <Literal<SEQUENCE_NAME_LENGTH>>::encode_error(name) is None
                    && <Literal<SEQUENCE_NAME_LENGTH>>::wire(name) + rest1 == input);
                <[u32; 2]>::lemma_parse_wire(None, rest1);
                match <[u32; 2]>::spec_parse(None, rest1) {
                    Ok((rest2, interval)) => {
                        assert(<[u32; 2]>::faithful(interval) ==> <[u32; 2]>::encode_error(interval) is None
                            && <[u32; 2]>::wire(interval) + rest2 == rest1);
                        FloatBits::lemma_parse_wire(None, rest2);
                        match FloatBits::spec_parse(None, rest2) {
                            Ok((rest3, move_speed)) => {
                                assert(FloatBits::faithful(move_speed) ==> FloatBits::encode_error(move_speed) is None
                                    && FloatBits::wire(move_speed) + rest3 == rest2);
                                u32::lemma_parse_wire(None, rest3);
                                match u32::spec_parse(None, rest3) {
                                    Ok((rest4, flags)) => {
                                        assert(u32::faithful(flags) ==> u32::encode_error(flags) is None
                                            && u32::wire(flags) + rest4 == rest3);
                                        FloatBits::lemma_parse_wire(None, rest4);
                                        match FloatBits::spec_parse(None, rest4) {
                                            Ok((rest5, rarity)) => {
                                                assert(FloatBits::faithful(rarity) ==> FloatBits::encode_error(rarity) is None
                                                    && FloatBits::wire(rarity) + rest5 == rest4);
                                                u32::lemma_parse_wire(None, rest5);
                                                match u32::spec_parse(None, rest5) {
                                                    Ok((rest6, sync_point)) => {
                                                        assert(u32::faithful(sync_point) ==> u32::encode_error(sync_point) is None
                                                            && u32::wire(sync_point) + rest6 == rest5);
                                                        Extent::lemma_parse_wire(None, rest6);
                                                        match Extent::spec_parse(None, rest6) {
                                                            Ok((rest7, extent)) => {
                                                                assert(Extent::faithful(extent) ==> Extent::encode_error(extent) is None
                                                                    && Extent::wire(extent) + rest7 == rest6);
                                                                let m = SequenceModel {
                                                                    name,
                                                                    interval,
                                                                    move_speed,
                                                                    flags,
                                                                    rarity,
                                                                    sync_point,
                                                                    extent,
                                                                };
                                                                if Self::faithful(m) {
                                                                    let w1 = <Literal<SEQUENCE_NAME_LENGTH>>::wire(m.name);
                                                                    let w2 = <[u32; 2]>::wire(m.interval);
                                                                    let w3 = FloatBits::wire(m.move_speed);
                                                                    let w4 = u32::wire(m.flags);
                                                                    let w5 = FloatBits::wire(m.rarity);
                                                                    let w6 = u32::wire(m.sync_point);
                                                                    let w7 = Extent::wire(m.extent);
                                                                    let s6 = w6 + w7;
                                                                    let s5 = w5 + s6;
                                                                    let s4 = w4 + s5;
                                                                    let s3 = w3 + s4;
                                                                    let s2 = w2 + s3;
                                                                    lemma_append_assoc(w6, w7, rest7);
                                                                    lemma_append_assoc(w5, s6, rest7);
                                                                    lemma_append_assoc(w4, s5, rest7);
                                                                    lemma_append_assoc(w3, s4, rest7);
                                                                    lemma_append_assoc(w2, s3, rest7);
                                                                    lemma_append_assoc(w1, s2, rest7);
                                                                }
                                                            },
                                                            Err(_) => {},
                                                        }
                                                    },
                                                    Err(_) => {},
                                                }
                                            },
                                            Err(_) => {},
                                        }
                                    },
                                    Err(_) => {},
                                }
                            },
                            Err(_) => {},
                        }
                    },
                    Err(_) => {},
                }
            },
            Err(_) => {},
        }
    }
}

impl Reparsable for Sequence {
    open spec fn well_formed(m: SequenceModel, version: Option<u32>) -> bool {
        <Literal<SEQUENCE_NAME_LENGTH>>::well_formed(m.name, None)
        && <[u32; 2]>::well_formed(m.interval, None)
        && FloatBits::well_formed(m.move_speed, None)
        && u32::well_formed(m.flags, None)
        && FloatBits::well_formed(m.rarity, None)
        && u32::well_formed(m.sync_point, None)
        && Extent::well_formed(m.extent, None)
    }

    #[verifier::rlimit(50)]
    proof fn lemma_wire_parse(m: SequenceModel, version: Option<u32>, tail: Seq<u8>) {
        let w1 = <Literal<SEQUENCE_NAME_LENGTH>>::wire(m.name);
        let w2 = <[u32; 2]>::wire(m.interval);
        let w3 = FloatBits::wire(m.move_speed);
        let w4 = u32::wire(m.flags);
        let w5 = FloatBits::wire(m.rarity);
        let w6 = u32::wire(m.sync_point);
        let w7 = Extent::wire(m.extent);
        let u8 = tail;
        let u7 = w7 + u8;
        let u6 = w6 + u7;
        let u5 = w5 + u6;
        let u4 = w4 + u5;
        let u3 = w3 + u4;
        let u2 = w2 + u3;
        let u1 = w1 + u2;
        let s6 = w6 + w7;
        let s5 = w5 + s6;
        let s4 = w4 + s5;
        let s3 = w3 + s4;
        let s2 = w2 + s3;
        lemma_append_assoc(w6, w7, tail);
        lemma_append_assoc(w5, s6, tail);
        lemma_append_assoc(w4, s5, tail);
        lemma_append_assoc(w3, s4, tail);
        lemma_append_assoc(w2, s3, tail);
        lemma_append_assoc(w1, s2, tail);
        <Literal<SEQUENCE_NAME_LENGTH>>::lemma_wire_parse(m.name, None, u2);
        <[u32; 2]>::lemma_wire_parse(m.interval, None, u3);
        FloatBits::lemma_wire_parse(m.move_speed, None, u4);
        u32::lemma_wire_parse(m.flags, None, u5);
        FloatBits::lemma_wire_parse(m.rarity, None, u6);
        u32::lemma_wire_parse(m.sync_point, None, u7);
        Extent::lemma_wire_parse(m.extent, None, u8);
    }
}

} // verus!
