//! The activation functions a layer can apply, and their names.

use vstd::prelude::*;
use crate::error::{LoreError, validation_error};
use crate::text::{lower_of, lowercase, is_word};

verus! {

/// The activation function applied to each neuron of a layer.
#[derive(Clone, Copy, Debug, PartialEq, Eq, Structural)]
pub enum ActivationType {
    ReLU,
    Sigmoid,
    Tanh,
    LeakyReLU,
    ELU,
    Swish,
}

/// The activation that a lowercase name denotes, if any.
pub open spec fn activation_named(s: Seq<char>) -> Option<ActivationType> {
    if s == "relu"@ {
        Some(ActivationType::ReLU)
    } else if s == "sigmoid"@ {
        Some(ActivationType::Sigmoid)
    } else if s == "tanh"@ {
        Some(ActivationType::Tanh)
    } else if s == "leakyrelu"@ {
        Some(ActivationType::LeakyReLU)
    } else if s == "elu"@ {
        Some(ActivationType::ELU)
    } else if s == "swish"@ {
        Some(ActivationType::Swish)
    } else {
        None
    }
}

impl ActivationType {
    /// Parses an activation name, ignoring case.
    pub fn new(name: String) -> (r: Result<ActivationType, LoreError>)
        ensures
            match activation_named(lower_of(name@)) {
                Some(a) => r == Ok::<ActivationType, LoreError>(a),
                None => r is Err && r->Err_0 is Validation,
            },
    {
        let lowered = lowercase(&name);
        match ActivationType::from_lowercase(&lowered) {
            Some(a) => Ok(a),
            None => Err(validation_error("Unknown activation: ", name.as_str())),
        }
    }

    /// The activation named by an already lowercased name.
    pub fn from_lowercase(s: &String) -> (r: Option<ActivationType>)
        ensures
            r == activation_named(s@),
    {
        if is_word(s, "relu") {
            Some(ActivationType::ReLU)
        } else if is_word(s, "sigmoid") {
            Some(ActivationType::Sigmoid)
        } else if is_word(s, "tanh") {
            Some(ActivationType::Tanh)
        } else if is_word(s, "leakyrelu") {
            Some(ActivationType::LeakyReLU)
        } else if is_word(s, "elu") {
            Some(ActivationType::ELU)
        } else if is_word(s, "swish") {
            Some(ActivationType::Swish)
        } else {
            None
        }
    }

    /// The name of the activation, as its variant is spelled.
    pub fn name(&self) -> (r: String)
        ensures
            r@ == match *self {
                ActivationType::ReLU => "ReLU"@,
                ActivationType::Sigmoid => "Sigmoid"@,
                ActivationType::Tanh => "Tanh"@,
                ActivationType::LeakyReLU => "LeakyReLU"@,
                ActivationType::ELU => "ELU"@,
                ActivationType::Swish => "Swish"@,
            },
    {
        match *self {
            ActivationType::ReLU => "ReLU".to_string(),
            ActivationType::Sigmoid => "Sigmoid".to_string(),
            ActivationType::Tanh => "Tanh".to_string(),
            ActivationType::LeakyReLU => "LeakyReLU".to_string(),
            ActivationType::ELU => "ELU".to_string(),
            ActivationType::Swish => "Swish".to_string(),
        }
    }
}

} // verus!
