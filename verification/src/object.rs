//! Tracked objects and their classification.

use vstd::prelude::*;
use crate::error::GatewayError;
use crate::text::{decimal_id, parse_id, same_text};

verus! {

/// Classification of a tracked object.
#[derive(Clone, Copy, Debug, PartialEq, Eq, Structural)]
pub enum ObjectType {
    RocketBody,
    Payload,
    Debris,
    Unknown,
}

/// The classification that a text of the remote service stands for. A text
/// that is none of the known ones stands for `Unknown`.
pub open spec fn classify(text: Seq<char>) -> ObjectType {
    if text == "ROCKET BODY"@ {
        ObjectType::RocketBody
    } else if text == "PAYLOAD"@ {
        ObjectType::Payload
    } else if text == "DEBRIS"@ {
        ObjectType::Debris
    } else {
        ObjectType::Unknown
    }
}

impl ObjectType {
    /// Reads a classification as the remote service writes it. Never fails:
    /// a category that is not known yet is read as `Unknown`.
    pub fn deserialize(text: &str) -> (r: ObjectType)
        ensures
            r == classify(text@),
    {
        if same_text(text, "ROCKET BODY") {
            ObjectType::RocketBody
        } else if same_text(text, "PAYLOAD") {
            ObjectType::Payload
        } else if same_text(text, "DEBRIS") {
            ObjectType::Debris
        } else {
            ObjectType::Unknown
        }
    }
}

/// Orbit summary of a tracked object. Each field holds the IEEE 754 binary64
/// bit pattern of the number it stands for; the core carries the four
/// numbers through and never computes with them.
#[derive(Clone, Copy, Debug, PartialEq, Eq, Structural)]
pub struct OrbitData {
    pub period: u64,
    pub inclination: u64,
    pub apogee: u64,
    pub perigee: u64,
}

impl OrbitData {
    /// Builds an orbit summary from the four numbers as they arrived. All
    /// four must be present together; otherwise there is no summary.
    pub fn from_parts(
        period: Option<u64>,
        inclination: Option<u64>,
        apogee: Option<u64>,
        perigee: Option<u64>,
    ) -> (r: Option<OrbitData>)
        ensures
            r == match (period, inclination, apogee, perigee) {
                (Some(p), Some(i), Some(a), Some(e)) => Some(
                    (OrbitData { period: p, inclination: i, apogee: a, perigee: e }),
                ),
                _ => None::<OrbitData>,
            },
    {
        match (period, inclination, apogee, perigee) {
            (Some(p), Some(i), Some(a), Some(e)) => Some(
                OrbitData { period: p, inclination: i, apogee: a, perigee: e },
            ),
            _ => None,
        }
    }
}

/// One tracked object of the catalog.
#[derive(Debug)]
pub struct Satellite {
    /// Identifier, unique within a catalog snapshot.
    pub id: usize,
    pub object_type: ObjectType,
    /// Display name, against which fuzzy queries are matched.
    pub object_name: String,
    /// Launch date as the remote service wrote it.
    pub launch: String,
    pub decay: Option<String>,
    pub orbit: Option<OrbitData>,
}

impl Clone for Satellite {
    fn clone(&self) -> (r: Self)
        ensures
            r == *self,
    {
        let decay = match &self.decay {
            Some(d) => Some(d.clone()),
            None => None,
        };
        Satellite {
            id: self.id,
            object_type: self.object_type,
            object_name: self.object_name.clone(),
            launch: self.launch.clone(),
            decay,
            orbit: self.orbit,
        }
    }
}

/// An identifier as it arrives from the remote service: a number, or a text
/// that holds a number.
#[derive(Debug)]
pub enum WireNumber {
    Number(usize),
    Text(String),
}

/// The identifier that a wire value stands for, if any.
pub open spec fn wire_value(raw: WireNumber) -> Option<usize> {
    match raw {
        WireNumber::Number(n) => Some(n),
        WireNumber::Text(t) => decimal_id(t@),
    }
}

/// What a record of the remote catalog stands for: the object with these
/// fields, unless its identifier cannot be read.
pub open spec fn record_value(
    id: WireNumber,
    object_type: Seq<char>,
    object_name: String,
    launch: String,
    decay: Option<String>,
    orbit: Option<OrbitData>,
) -> Result<Satellite, GatewayError> {
    match wire_value(id) {
        Some(n) => Ok(
            (Satellite {
                id: n,
                object_type: classify(object_type),
                object_name,
                launch,
                decay,
                orbit,
            }),
        ),
        None => Err(GatewayError::Parse),
    }
}

impl Satellite {
    /// Reads one record of the remote catalog. The identifier may arrive as
    /// a number or as a numeric text; a classification that is not known is
    /// read as `Unknown` and does not fail the record. The record fails only
    /// where its identifier cannot be read.
    pub fn from_record(
        id: &WireNumber,
        object_type: &str,
        object_name: String,
        launch: String,
        decay: Option<String>,
        orbit: Option<OrbitData>,
    ) -> (r: Result<Satellite, GatewayError>)
        ensures
            r == record_value(*id, object_type@, object_name, launch, decay, orbit),
    {
        match deserialize_number_from_string(id) {
            Ok(n) => Ok(
                Satellite {
                    id: n,
                    object_type: ObjectType::deserialize(object_type),
                    object_name,
                    launch,
                    decay,
                    orbit,
                },
            ),
            Err(e) => Err(e),
        }
    }
}

/// Reads an identifier that arrived either as a number or as a numeric
/// text. A text that holds no number is a parse failure.
pub fn deserialize_number_from_string(raw: &WireNumber) -> (r: Result<usize, GatewayError>)
    ensures
        r == match wire_value(*raw) {
            Some(n) => Ok::<usize, GatewayError>(n),
            None => Err::<usize, GatewayError>(GatewayError::Parse),
        },
{
    match raw {
        WireNumber::Number(n) => Ok(*n),
        WireNumber::Text(t) => match parse_id(t.as_str()) {
            Some(n) => Ok(n),
            None => Err(GatewayError::Parse),
        },
    }
}

} // verus!
