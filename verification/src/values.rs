use vstd::prelude::*;

verus! {

/// The type of a netCDF attribute, as far as reading a variable's values
/// needs to tell them apart.
#[derive(Debug, Clone, Copy, PartialEq, Eq)]
pub enum AttributeKind {
    /// A single 64-bit float.
    Double,
    /// A single 32-bit float.
    Float,
    /// A single 16-bit integer.
    Short,
    /// Any other type.
    Other,
}

/// Why a variable's values cannot be scaled and offset.
#[derive(Debug, Clone, Copy, PartialEq, Eq)]
pub enum ValuesError {
    /// The `_FillValue` attribute is not a double, float or short.
    FillValueNotUsable,
    /// The `scale_factor` attribute is not a double.
    ScaleFactorNotDouble,
    /// The `add_offset` attribute is not a double.
    AddOffsetNotDouble,
}

impl ValuesError {
    /// The text that explains the error.
    pub open spec fn spec_message(self) -> Seq<char> {
        match self {
            ValuesError::FillValueNotUsable => "fill_value was not a usable number"@,
            ValuesError::ScaleFactorNotDouble => "scale_factor was not a double"@,
            ValuesError::AddOffsetNotDouble => "add_offset was not a double"@,
        }
    }

    /// The text that explains the error.
    pub fn message(&self) -> (m: String)
        ensures
            m@ == self.spec_message(),
    {
        match self {
            ValuesError::FillValueNotUsable => "fill_value was not a usable number".to_owned(),
            ValuesError::ScaleFactorNotDouble => "scale_factor was not a double".to_owned(),
            ValuesError::AddOffsetNotDouble => "add_offset was not a double".to_owned(),
        }
    }
}

/// A fill value can be read as a number when it is a double, a float or a
/// short.
pub open spec fn fill_value_usable(kind: AttributeKind) -> bool {
    kind is Double || kind is Float || kind is Short
}

/// The outcome of reading a variable whose `_FillValue`, `scale_factor` and
/// `add_offset` attributes have the given kinds (`None` where absent): the
/// attributes are used in that order, and the first unusable one stops the
/// reading.
pub open spec fn value_attributes_spec(
    fill_value: Option<AttributeKind>,
    scale_factor: Option<AttributeKind>,
    add_offset: Option<AttributeKind>,
) -> Result<(), ValuesError> {
    if fill_value matches Some(k) && !fill_value_usable(k) {
        Err(ValuesError::FillValueNotUsable)
    } else if scale_factor matches Some(k) && !(k is Double) {
        Err(ValuesError::ScaleFactorNotDouble)
    } else if add_offset matches Some(k) && !(k is Double) {
        Err(ValuesError::AddOffsetNotDouble)
    } else {
        Ok(())
    }
}

/// Each attribute is judged by its own kind alone: the reading succeeds
/// exactly when every present attribute has a usable kind (fill value a
/// double, float or short; scale factor and offset a double); a fill value is
/// refused exactly when its kind is another one, whatever the scale factor
/// and the offset; the scale factor is refused exactly when the fill value is
/// usable and the scale factor is not a double; the offset is refused exactly
/// when the other two are usable and it is not a double.
pub proof fn lemma_value_attributes_each_on_its_own(
    fill_value: Option<AttributeKind>,
    scale_factor: Option<AttributeKind>,
    add_offset: Option<AttributeKind>,
)
    ensures
        ({
            let r = value_attributes_spec(fill_value, scale_factor, add_offset);
            let fill_ok = fill_value is None || fill_value == Some(AttributeKind::Double)
                || fill_value == Some(AttributeKind::Float) || fill_value == Some(
                AttributeKind::Short,
            );
            let scale_ok = scale_factor is None || scale_factor == Some(AttributeKind::Double);
            let offset_ok = add_offset is None || add_offset == Some(AttributeKind::Double);
            &&& (r == Ok::<(), ValuesError>(()) <==> fill_ok && scale_ok && offset_ok)
            &&& (r == Err::<(), ValuesError>(ValuesError::FillValueNotUsable) <==> fill_value == Some(
                AttributeKind::Other,
            ))
            &&& (r == Err::<(), ValuesError>(ValuesError::ScaleFactorNotDouble) <==> fill_ok
                && !scale_ok)
            &&& (r == Err::<(), ValuesError>(ValuesError::AddOffsetNotDouble) <==> fill_ok
                && scale_ok && !offset_ok)
        }),
{
}

/// Checks that a variable's fill value, scale factor and offset, where they
/// exist, have types that can be used: the fill value a double, float or
/// short, the scale factor and the offset a double.
pub fn check_value_attributes(
    fill_value: Option<AttributeKind>,
    scale_factor: Option<AttributeKind>,
    add_offset: Option<AttributeKind>,
) -> (r: Result<(), ValuesError>)
    ensures
        r == value_attributes_spec(fill_value, scale_factor, add_offset),
        r is Ok <==> (fill_value is None || fill_value == Some(AttributeKind::Double)
            || fill_value == Some(AttributeKind::Float) || fill_value == Some(AttributeKind::Short))
            && (scale_factor is None || scale_factor == Some(AttributeKind::Double)) && (add_offset is None
            || add_offset == Some(AttributeKind::Double)),
        r == Err::<(), ValuesError>(ValuesError::FillValueNotUsable) <==> fill_value == Some(
            AttributeKind::Other,
        ),
{
    proof {
        lemma_value_attributes_each_on_its_own(fill_value, scale_factor, add_offset);
    }
    if let Some(kind) = fill_value {
        match kind {
            AttributeKind::Double | AttributeKind::Float | AttributeKind::Short => {},
            AttributeKind::Other => {
                return Err(ValuesError::FillValueNotUsable);
            },
        }
    }
    if let Some(kind) = scale_factor {
        match kind {
            AttributeKind::Double => {},
            _ => {
                return Err(ValuesError::ScaleFactorNotDouble);
            },
        }
    }
    if let Some(kind) = add_offset {
        match kind {
            AttributeKind::Double => {},
            _ => {
                return Err(ValuesError::AddOffsetNotDouble);
            },
        }
    }
    Ok(())
}

} // verus!
