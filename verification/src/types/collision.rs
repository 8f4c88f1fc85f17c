use crate::encoder::error::Error as EncodeError;
use crate::encoder::primitives::{push_le_u32, spec_u32_to_le_bytes};
use crate::parser::error::MdxParseError;
use crate::parser::primitives::{le_u32, spec_le_u32, Parsed, Parser};
use crate::types::materialize::{lemma_append_assoc, FloatBits, Lossless, Materialized, Reparsable};
use crate::types::node::{Node, NodeModel};
use vstd::prelude::*;

verus! {

/// A shape that other objects collide with. The code in front of the vertices
/// says which shape it is: 0 a cube, 1 a plane, 2 a sphere, 3 a cylinder.
#[derive(Debug, Clone, PartialEq)]
#[allow(inconsistent_fields)]
pub enum CollisionShape {
    Cube { node: Node, vertices: [[FloatBits; 3]; 2] },
    Plane { node: Node, vertices: [[FloatBits; 3]; 2] },
    Sphere { node: Node, vertices: [FloatBits; 3], radius: FloatBits },
    Cylinder { node: Node, vertices: [[FloatBits; 3]; 2], radius: FloatBits },
}

/// What a value of [`CollisionShape`] stands for in specifications.
#[allow(inconsistent_fields)]
pub enum CollisionShapeModel {
    Cube { node: NodeModel, vertices: Seq<Seq<FloatBits>> },
    Plane { node: NodeModel, vertices: Seq<Seq<FloatBits>> },
    Sphere { node: NodeModel, vertices: Seq<FloatBits>, radius: FloatBits },
    Cylinder { node: NodeModel, vertices: Seq<Seq<FloatBits>>, radius: FloatBits },
}

/// The grammar of the vertices and the radius of a shape with the given code,
/// behind the node `node`.
pub open spec fn spec_parse_shape(node: NodeModel, shape_type: u32, input: Seq<u8>) -> Parsed<
    CollisionShapeModel,
> {
    if shape_type == 0 {
        match <[[FloatBits; 3]; 2]>::spec_parse(None, input) {
            Ok((rest, vertices)) => Ok((rest, CollisionShapeModel::Cube { node, vertices })),
            Err(e) => Err(e),
        }
    } else if shape_type == 1 {
        match <[[FloatBits; 3]; 2]>::spec_parse(None, input) {
            Ok((rest, vertices)) => Ok((rest, CollisionShapeModel::Plane { node, vertices })),
            Err(e) => Err(e),
        }
    } else if shape_type == 2 {
        match <[FloatBits; 3]>::spec_parse(None, input) {
            Ok((rest, vertices)) => match FloatBits::spec_parse(None, rest) {
                Ok((rest, radius)) => Ok(
                    (rest, CollisionShapeModel::Sphere { node, vertices, radius }),
                ),
                Err(e) => Err(e),
            },
            Err(e) => Err(e),
        }
    } else if shape_type == 3 {
        match <[[FloatBits; 3]; 2]>::spec_parse(None, input) {
            Ok((rest, vertices)) => match FloatBits::spec_parse(None, rest) {
                Ok((rest, radius)) => Ok(
                    (rest, CollisionShapeModel::Cylinder { node, vertices, radius }),
                ),
                Err(e) => Err(e),
            },
            Err(e) => Err(e),
        }
    } else {
        Err(MdxParseError::UnknownCollisionShape { tag: shape_type })
    }
}

/// The bytes of a shape behind its node: the code, the vertices and the radius.
pub open spec fn wire_shape(m: CollisionShapeModel) -> Seq<u8> {
    match m {
        CollisionShapeModel::Cube { node, vertices } => spec_u32_to_le_bytes(0) + <[[FloatBits;
            3]; 2]>::wire(vertices),
        CollisionShapeModel::Plane { node, vertices } => spec_u32_to_le_bytes(1) + <[[FloatBits;
            3]; 2]>::wire(vertices),
        CollisionShapeModel::Sphere { node, vertices, radius } => spec_u32_to_le_bytes(2) + (<[
            FloatBits;
            3
        ]>::wire(vertices) + FloatBits::wire(radius)),
        CollisionShapeModel::Cylinder { node, vertices, radius } => spec_u32_to_le_bytes(3) + (<[[
            FloatBits;
            3
        ]; 2]>::wire(vertices) + FloatBits::wire(radius)),
    }
}

/// The failure of the encoder on the vertices and the radius of a shape.
pub open spec fn encode_error_shape(m: CollisionShapeModel) -> Option<EncodeError> {
    match m {
        CollisionShapeModel::Cube { node, vertices } => <[[FloatBits; 3]; 2]>::encode_error(
            vertices,
        ),
        CollisionShapeModel::Plane { node, vertices } => <[[FloatBits; 3]; 2]>::encode_error(
            vertices,
        ),
        CollisionShapeModel::Sphere { node, vertices, radius } => <[FloatBits; 3]>::encode_error(
            vertices,
        ),
        CollisionShapeModel::Cylinder { node, vertices, radius } => <[[
            FloatBits;
            3
        ]; 2]>::encode_error(vertices),
    }
}

/// Whether the vertices of a shape are faithful.
pub open spec fn shape_faithful(m: CollisionShapeModel) -> bool {
    match m {
        CollisionShapeModel::Cube { node, vertices } => <[[FloatBits; 3]; 2]>::faithful(vertices),
        CollisionShapeModel::Plane { node, vertices } => <[[FloatBits; 3]; 2]>::faithful(vertices),
        CollisionShapeModel::Sphere { node, vertices, radius } => <[FloatBits; 3]>::faithful(
            vertices,
        ),
        CollisionShapeModel::Cylinder { node, vertices, radius } => <[[
            FloatBits;
            3
        ]; 2]>::faithful(vertices),
    }
}

/// The node of a shape.
pub open spec fn shape_node(m: CollisionShapeModel) -> NodeModel {
    match m {
        CollisionShapeModel::Cube { node, vertices } => node,
        CollisionShapeModel::Plane { node, vertices } => node,
        CollisionShapeModel::Sphere { node, vertices, radius } => node,
        CollisionShapeModel::Cylinder { node, vertices, radius } => node,
    }
}

impl Materialized for CollisionShape {
    type Version = u32;

    type Model = CollisionShapeModel;

    open spec fn model(&self) -> CollisionShapeModel {
        match *self {
            CollisionShape::Cube { node, vertices } => CollisionShapeModel::Cube {
                node: node.model(),
                vertices: vertices.model(),
            },
            CollisionShape::Plane { node, vertices } => CollisionShapeModel::Plane {
                node: node.model(),
                vertices: vertices.model(),
            },
            CollisionShape::Sphere { node, vertices, radius } => CollisionShapeModel::Sphere {
                node: node.model(),
                vertices: vertices.model(),
                radius,
            },
            CollisionShape::Cylinder { node, vertices, radius } => CollisionShapeModel::Cylinder {
                node: node.model(),
                vertices: vertices.model(),
                radius,
            },
        }
    }

    open spec fn spec_parse(version: Option<u32>, input: Seq<u8>) -> Parsed<CollisionShapeModel> {
        match Node::spec_parse(None, input) {
            Ok((rest, node)) => match spec_le_u32(rest) {
                Ok((rest, shape_type)) => spec_parse_shape(node, shape_type, rest),
                Err(e) => Err(e),
            },
            Err(e) => Err(e),
        }
    }

    open spec fn wire(m: CollisionShapeModel) -> Seq<u8> {
        Node::wire(shape_node(m)) + wire_shape(m)
    }

    open spec fn encode_error(m: CollisionShapeModel) -> Option<EncodeError> {
        match Node::encode_error(shape_node(m)) {
            Some(e) => Some(e),
            None => encode_error_shape(m),
        }
    }

    fn parse_versioned<'a>(version: Option<u32>, input: &'a [u8]) -> (r: Parser<
        'a,
        CollisionShape,
    >) {
        let (input, node) = Node::parse(input)?;
        let (input, shape_type) = le_u32(input)?;
        match shape_type {
            0 => {
                let (input, vertices) = <[[FloatBits; 3]; 2]>::parse(input)?;
                Ok((input, CollisionShape::Cube { node, vertices }))
            },
            1 => {
                let (input, vertices) = <[[FloatBits; 3]; 2]>::parse(input)?;
                Ok((input, CollisionShape::Plane { node, vertices }))
            },
            2 => {
                let (input, vertices) = <[FloatBits; 3]>::parse(input)?;
                let (input, radius) = FloatBits::parse(input)?;
                Ok((input, CollisionShape::Sphere { node, vertices, radius }))
            },
            3 => {
                let (input, vertices) = <[[FloatBits; 3]; 2]>::parse(input)?;
                let (input, radius) = FloatBits::parse(input)?;
                Ok((input, CollisionShape::Cylinder { node, vertices, radius }))
            },
            _ => Err(MdxParseError::UnknownCollisionShape { tag: shape_type }),
        }
    }

    fn encode(&self, output: &mut Vec<u8>) -> (r: Result<(), EncodeError>) {
        let ghost p0 = output@;
        match self {
            CollisionShape::Cube { node, vertices } => {
                node.encode(output)?;
                let ghost p1 = output@;
                push_le_u32(0, output);
                vertices.encode(output)?;
                proof {
                    lemma_append_assoc(
                        p1,
                        spec_u32_to_le_bytes(0),
                        <[[FloatBits; 3]; 2]>::wire(vertices.model()),
                    );
                    lemma_append_assoc(p0, Node::wire(node.model()), wire_shape(self.model()));
                }
            },
            CollisionShape::Plane { node, vertices } => {
                node.encode(output)?;
                let ghost p1 = output@;
                push_le_u32(1, output);
                vertices.encode(output)?;
                proof {
                    lemma_append_assoc(
                        p1,
                        spec_u32_to_le_bytes(1),
                        <[[FloatBits; 3]; 2]>::wire(vertices.model()),
                    );
                    lemma_append_assoc(p0, Node::wire(node.model()), wire_shape(self.model()));
                }
            },
            CollisionShape::Sphere { node, vertices, radius } => {
                node.encode(output)?;
                let ghost p1 = output@;
                push_le_u32(2, output);
                let ghost p2 = output@;
                vertices.encode(output)?;
                radius.encode(output)?;
                proof {
                    let w2 = <[FloatBits; 3]>::wire(vertices.model());
                    let w3 = FloatBits::wire(*radius);
                    lemma_append_assoc(p2, w2, w3);
                    lemma_append_assoc(p1, spec_u32_to_le_bytes(2), w2 + w3);
                    lemma_append_assoc(p0, Node::wire(node.model()), wire_shape(self.model()));
                }
            },
            CollisionShape::Cylinder { node, vertices, radius } => {
                node.encode(output)?;
                let ghost p1 = output@;
                push_le_u32(3, output);
                let ghost p2 = output@;
                vertices.encode(output)?;
                radius.encode(output)?;
                proof {
                    let w2 = <[[FloatBits; 3]; 2]>::wire(vertices.model());
                    let w3 = FloatBits::wire(*radius);
                    lemma_append_assoc(p2, w2, w3);
                    lemma_append_assoc(p1, spec_u32_to_le_bytes(3), w2 + w3);
                    lemma_append_assoc(p0, Node::wire(node.model()), wire_shape(self.model()));
                }
            },
        }
        Ok(())
    }
}

impl Lossless for CollisionShape {
    open spec fn faithful(m: CollisionShapeModel) -> bool {
        Node::faithful(shape_node(m)) && shape_faithful(m)
    }

    proof fn lemma_parse_wire(version: Option<u32>, input: Seq<u8>) {
        Node::lemma_parse_wire(None, input);
        match Node::spec_parse(None, input) {
            Ok((rest1, node)) => {
                u32::lemma_parse_wire(None, rest1);
                match spec_le_u32(rest1) {
                    Ok((rest2, shape_type)) => {
                        <[[FloatBits; 3]; 2]>::lemma_parse_wire(None, rest2);
                        <[FloatBits; 3]>::lemma_parse_wire(None, rest2);
                        match spec_parse_shape(node, shape_type, rest2) {
                            Ok((rest, m)) => {
                                if Node::faithful(node) && shape_faithful(m) {
                                    assert(shape_node(m) == node);
                                    match m {
                                        CollisionShapeModel::Cube { node, vertices } => {},
                                        CollisionShapeModel::Plane { node, vertices } => {},
                                        CollisionShapeModel::Sphere { node, vertices, radius } => {
                                            let after = <[FloatBits; 3]>::spec_parse(
                                                None,
                                                rest2,
                                            )->Ok_0.0;
                                            FloatBits::lemma_parse_wire(None, after);
                                            lemma_append_assoc(
                                                <[FloatBits; 3]>::wire(vertices),
                                                FloatBits::wire(radius),
                                                rest,
                                            );
                                        },
                                        CollisionShapeModel::Cylinder {
                                            node,
                                            vertices,
                                            radius,
                                        } => {
                                            let after = <[[FloatBits; 3]; 2]>::spec_parse(
                                                None,
                                                rest2,
                                            )->Ok_0.0;
                                            FloatBits::lemma_parse_wire(None, after);
                                            lemma_append_assoc(
                                                <[[FloatBits; 3]; 2]>::wire(vertices),
                                                FloatBits::wire(radius),
                                                rest,
                                            );
                                        },
                                    }
                                    assert(wire_shape(m) + rest == rest1) by {
                                        match m {
                                            CollisionShapeModel::Cube { node, vertices } => {
                                                lemma_append_assoc(
                                                    spec_u32_to_le_bytes(0),
                                                    <[[FloatBits; 3]; 2]>::wire(vertices),
                                                    rest,
                                                );
                                            },
                                            CollisionShapeModel::Plane { node, vertices } => {
                                                lemma_append_assoc(
                                                    spec_u32_to_le_bytes(1),
                                                    <[[FloatBits; 3]; 2]>::wire(vertices),
                                                    rest,
                                                );
                                            },
                                            CollisionShapeModel::Sphere {
                                                node,
                                                vertices,
                                                radius,
                                            } => {
                                                lemma_append_assoc(
                                                    spec_u32_to_le_bytes(2),
                                                    <[FloatBits; 3]>::wire(vertices)
                                                        + FloatBits::wire(radius),
                                                    rest,
                                                );
                                            },
                                            CollisionShapeModel::Cylinder {
                                                node,
                                                vertices,
                                                radius,
                                            } => {
                                                lemma_append_assoc(
                                                    spec_u32_to_le_bytes(3),
                                                    <[[FloatBits; 3]; 2]>::wire(vertices)
                                                        + FloatBits::wire(radius),
                                                    rest,
                                                );
                                            },
                                        }
                                    }
                                    lemma_append_assoc(Node::wire(node), wire_shape(m), rest);
                                }
                            },
                            Err(_) => {},
                        }
                    },
                    Err(_) => {},
                }
            },
            Err(_) => {},
        }
    }
}

/// Whether the vertices of a shape are well formed: as many as the shape has.
pub open spec fn shape_well_formed(m: CollisionShapeModel) -> bool {
    match m {
        CollisionShapeModel::Cube { node, vertices } => <[[FloatBits; 3]; 2]>::well_formed(
            vertices,
            None,
        ),
        CollisionShapeModel::Plane { node, vertices } => <[[FloatBits; 3]; 2]>::well_formed(
            vertices,
            None,
        ),
        CollisionShapeModel::Sphere { node, vertices, radius } => <[FloatBits; 3]>::well_formed(
            vertices,
            None,
        ),
        CollisionShapeModel::Cylinder { node, vertices, radius } => <[[
            FloatBits;
            3
        ]; 2]>::well_formed(vertices, None),
    }
}

impl Reparsable for CollisionShape {
    open spec fn well_formed(m: CollisionShapeModel, version: Option<u32>) -> bool {
        Node::well_formed(shape_node(m), None) && shape_well_formed(m)
    }

    proof fn lemma_wire_parse(m: CollisionShapeModel, version: Option<u32>, tail: Seq<u8>) {
        lemma_append_assoc(Node::wire(shape_node(m)), wire_shape(m), tail);
        Node::lemma_wire_parse(shape_node(m), None, wire_shape(m) + tail);
        match m {
            CollisionShapeModel::Cube { node, vertices } => {
                let w = <[[FloatBits; 3]; 2]>::wire(vertices);
                lemma_append_assoc(spec_u32_to_le_bytes(0), w, tail);
                u32::lemma_wire_parse(0, None, w + tail);
                <[[FloatBits; 3]; 2]>::lemma_wire_parse(vertices, None, tail);
            },
            CollisionShapeModel::Plane { node, vertices } => {
                let w = <[[FloatBits; 3]; 2]>::wire(vertices);
                lemma_append_assoc(spec_u32_to_le_bytes(1), w, tail);
                u32::lemma_wire_parse(1, None, w + tail);
                <[[FloatBits; 3]; 2]>::lemma_wire_parse(vertices, None, tail);
            },
            CollisionShapeModel::Sphere { node, vertices, radius } => {
                let w = <[FloatBits; 3]>::wire(vertices);
                let r = FloatBits::wire(radius);
                lemma_append_assoc(spec_u32_to_le_bytes(2), w + r, tail);
                lemma_append_assoc(w, r, tail);
                u32::lemma_wire_parse(2, None, w + (r + tail));
                <[FloatBits; 3]>::lemma_wire_parse(vertices, None, r + tail);
                FloatBits::lemma_wire_parse(radius, None, tail);
            },
            CollisionShapeModel::Cylinder { node, vertices, radius } => {
                let w = <[[FloatBits; 3]; 2]>::wire(vertices);
                let r = FloatBits::wire(radius);
                lemma_append_assoc(spec_u32_to_le_bytes(3), w + r, tail);
                lemma_append_assoc(w, r, tail);
                u32::lemma_wire_parse(3, None, w + (r + tail));
                <[[FloatBits; 3]; 2]>::lemma_wire_parse(vertices, None, r + tail);
                FloatBits::lemma_wire_parse(radius, None, tail);
            },
        }
    }
}

} // verus!
