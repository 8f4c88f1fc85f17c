use crate::encoder::error::Error as EncodeError;
use crate::parser::primitives::{Parsed, Parser};
use crate::types::materialize::{lemma_append_assoc, FloatBits, Lossless, Materialized, Reparsable};
use vstd::prelude::*;

verus! {

/// The bounds of a model or of one of its parts: the radius of the bounding
/// sphere and the corners of the bounding box.
#[derive(Debug, Clone, PartialEq)]
pub struct Extent {
    pub bounds_radius: FloatBits,
    pub minimum: [FloatBits; 3],
    pub maximum: [FloatBits; 3],
}

/// What a value of [`Extent`] stands for in specifications.
pub struct ExtentModel {
    pub bounds_radius: FloatBits,
    pub minimum: Seq<FloatBits>,
    pub maximum: Seq<FloatBits>,
}

impl Materialized for Extent {
    type Version = u32;

    type Model = ExtentModel;

    open spec fn model(&self) -> ExtentModel {
        ExtentModel {
            bounds_radius: self.bounds_radius.model(),
            minimum: self.minimum.model(),
            maximum: self.maximum.model(),
        }
    }

    open spec fn spec_parse(version: Option<u32>, input: Seq<u8>) -> Parsed<ExtentModel> {
        match FloatBits::spec_parse(None, input) {
            Ok((rest, bounds_radius)) => match <[FloatBits; 3]>::spec_parse(None, rest) {
                Ok((rest, minimum)) => match <[FloatBits; 3]>::spec_parse(None, rest) {
                    Ok((rest, maximum)) => Ok((rest, ExtentModel { bounds_radius, minimum, maximum })),
                    Err(e) => Err(e),
                },
                Err(e) => Err(e),
            },
            Err(e) => Err(e),
        }
    }

    open spec fn wire(m: ExtentModel) -> Seq<u8> {
        FloatBits::wire(m.bounds_radius) + (<[FloatBits; 3]>::wire(m.minimum) + (<[FloatBits; 3]>::wire(m.maximum)))
    }

    open spec fn encode_error(m: ExtentModel) -> Option<EncodeError> {
        match FloatBits::encode_error(m.bounds_radius) {
            Some(e) => Some(e),
            None => match <[FloatBits; 3]>::encode_error(m.minimum) {
                Some(e) => Some(e),
                None => <[FloatBits; 3]>::encode_error(m.maximum),
            },
        }
    }

    fn parse_versioned<'a>(version: Option<u32>, input: &'a [u8]) -> (r: Parser<'a, Extent>) {
        let (input, bounds_radius) = FloatBits::parse(input)?;
        let (input, minimum) = <[FloatBits; 3]>::parse(input)?;
        let (input, maximum) = <[FloatBits; 3]>::parse(input)?;
        Ok((input, Extent { bounds_radius, minimum, maximum }))
    }

    fn encode(&self, output: &mut Vec<u8>) -> (r: Result<(), EncodeError>) {
        let ghost p0 = output@;
        self.bounds_radius.encode(output)?;
        let ghost p1 = output@;
        self.minimum.encode(output)?;
        let ghost p2 = output@;
        self.maximum.encode(output)?;
        proof {
            let m = self.model();
            let w1 = FloatBits::wire(m.bounds_radius);
            let w2 = <[FloatBits; 3]>::wire(m.minimum);
            let w3 = <[FloatBits; 3]>::wire(m.maximum);
            let s2 = w2 + w3;
            lemma_append_assoc(p1, w2, w3);
            lemma_append_assoc(p0, w1, s2);
        }
        Ok(())
    }
}

impl Lossless for Extent {
    open spec fn faithful(m: ExtentModel) -> bool {
        FloatBits::faithful(m.bounds_radius) && <[FloatBits; 3]>::faithful(m.minimum) && <[FloatBits; 3]>::faithful(m.maximum)
    }

    proof fn lemma_parse_wire(version: Option<u32>, input: Seq<u8>) {
        FloatBits::lemma_parse_wire(None, input);
        match FloatBits::spec_parse(None, input) {
            Ok((rest1, bounds_radius)) => {
                assert(FloatBits::faithful(bounds_radius) ==> FloatBits::encode_error(bounds_radius) is None
                    && FloatBits::wire(bounds_radius) + rest1 == input);
                <[FloatBits; 3]>::lemma_parse_wire(None, rest1);
                match <[FloatBits; 3]>::spec_parse(None, rest1) {
                    Ok((rest2, minimum)) => {
                        assert(<[FloatBits; 3]>::faithful(minimum) ==> <[FloatBits; 3]>::encode_error(minimum) is None
                            && <[FloatBits; 3]>::wire(minimum) + rest2 == rest1);
                        <[FloatBits; 3]>::lemma_parse_wire(None, rest2);
                        match <[FloatBits; 3]>::spec_parse(None, rest2) {
                            Ok((rest3, maximum)) => {
                                assert(<[FloatBits; 3]>::faithful(maximum) ==> <[FloatBits; 3]>::encode_error(maximum) is None
                                    && <[FloatBits; 3]>::wire(maximum) + rest3 == rest2);
                                let m = ExtentModel { bounds_radius, minimum, maximum };
                                if Self::faithful(m) {
                                    let w1 = FloatBits::wire(m.bounds_radius);
                                    let w2 = <[FloatBits; 3]>::wire(m.minimum);
                                    let w3 = <[FloatBits; 3]>::wire(m.maximum);
                                    let s2 = w2 + w3;
                                    lemma_append_assoc(w2, w3, rest3);
                                    lemma_append_assoc(w1, s2, rest3);
                                }
                            },
                            Err(_) => {},
                        }
                    },
                    Err(_) => {},
                }
            },
            Err(_) => {},
        }
    }
}

impl Reparsable for Extent {
    open spec fn well_formed(m: ExtentModel, version: Option<u32>) -> bool {
        FloatBits::well_formed(m.bounds_radius, None)
        && <[FloatBits; 3]>::well_formed(m.minimum, None)
        && <[FloatBits; 3]>::well_formed(m.maximum, None)
    }

    proof fn lemma_wire_parse(m: ExtentModel, version: Option<u32>, tail: Seq<u8>) {
        let w1 = FloatBits::wire(m.bounds_radius);
        let w2 = <[FloatBits; 3]>::wire(m.minimum);
        let w3 = <[FloatBits; 3]>::wire(m.maximum);
        let u4 = tail;
        let u3 = w3 + u4;
        let u2 = w2 + u3;
        let u1 = w1 + u2;
        let s2 = w2 + w3;
        lemma_append_assoc(w2, w3, tail);
        lemma_append_assoc(w1, s2, tail);
        FloatBits::lemma_wire_parse(m.bounds_radius, None, u2);
        <[FloatBits; 3]>::lemma_wire_parse(m.minimum, None, u3);
        <[FloatBits; 3]>::lemma_wire_parse(m.maximum, None, u4);
    }
}

} // verus!
