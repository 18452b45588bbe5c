//! Byte-length bounds, slot and key names, and resolution of slotted query values.

use vstd::prelude::*;
use crate::error::{reports, ConfigError, ErrorView};
use crate::template::slot_name_ok;
use crate::text::{byte_count, byte_len, chars_of};

verus! {

/// Emission mode for a slotted query parameter.
#[derive(Clone, Copy, Debug, PartialEq, Eq, Structural)]
pub enum SlottedQueryMode {
    /// Slot must resolve and must be non-empty.
    Required,
    /// Slot must resolve and may be empty.
    RequiredAllowEmpty,
    /// Missing/empty is treated as omitted.
    Optional,
    /// Missing is omitted; if provided, empty is emitted.
    OptionalAllowEmpty,
}

impl Default for SlottedQueryMode {
    fn default() -> (m: Self)
        ensures
            m == SlottedQueryMode::Required,
    {
        SlottedQueryMode::Required
    }
}

/// The error for a value of `len` bytes under optional bounds, if it breaks one; the lower
/// bound is checked first.
pub open spec fn len_error(slot: Seq<char>, len: usize, min: Option<usize>, max: Option<usize>) -> Option<
    ErrorView,
> {
    if min is Some && len < min->0 {
        Some(ErrorView::ValueTooShort { slot, len, min: min->0 })
    } else if max is Some && len > max->0 {
        Some(ErrorView::ValueTooLong { slot, len, max: max->0 })
    } else {
        None
    }
}

/// The error for a pair of optional bounds, if the lower exceeds the upper.
pub open spec fn bounds_error(slot: Seq<char>, min: Option<usize>, max: Option<usize>) -> Option<
    ErrorView,
> {
    if min is Some && max is Some && min->0 > max->0 {
        Some(ErrorView::InvalidByteBounds { slot, min: min->0, max: max->0 })
    } else {
        None
    }
}

/// What a slotted query rule does with its input before the length check.
pub enum QueryChoice {
    /// Emit this value.
    Emit(Seq<char>),
    /// Emit nothing.
    Omit,
    /// Fail: the slot resolved to nothing.
    Missing,
    /// Fail: the slot resolved to the empty string.
    Empty,
}

/// The resolution of a slotted query rule: the call-time value if provided, else the
/// default; then the mode decides.
pub open spec fn query_choice(
    mode: SlottedQueryMode,
    default: Option<Seq<char>>,
    provided: Option<Seq<char>>,
) -> QueryChoice {
    let candidate = if provided is Some {
        provided
    } else {
        default
    };
    match mode {
        SlottedQueryMode::Required => match candidate {
            None => QueryChoice::Missing,
            Some(v) => if v.len() == 0 {
                QueryChoice::Empty
            } else {
                QueryChoice::Emit(v)
            },
        },
        SlottedQueryMode::RequiredAllowEmpty => match candidate {
            None => QueryChoice::Missing,
            Some(v) => QueryChoice::Emit(v),
        },
        SlottedQueryMode::Optional => match candidate {
            None => QueryChoice::Omit,
            Some(v) => if v.len() == 0 {
                QueryChoice::Omit
            } else {
                QueryChoice::Emit(v)
            },
        },
        SlottedQueryMode::OptionalAllowEmpty => match candidate {
            None => QueryChoice::Omit,
            Some(v) => QueryChoice::Emit(v),
        },
    }
}

/// The outcome of resolving a slotted query value.
pub open spec fn slotted_outcome(
    slot: Seq<char>,
    mode: SlottedQueryMode,
    default: Option<Seq<char>>,
    provided: Option<Seq<char>>,
    min: Option<usize>,
    max: Option<usize>,
) -> Result<Option<Seq<char>>, ErrorView> {
    match query_choice(mode, default, provided) {
        QueryChoice::Missing => Err(ErrorView::MissingQueryValue { slot }),
        QueryChoice::Empty => Err(ErrorView::EmptyQueryValue { slot }),
        QueryChoice::Omit => Ok(None),
        QueryChoice::Emit(v) => match len_error(slot, byte_count(v), min, max) {
            Some(e) => Err(e),
            None => Ok(Some(v)),
        },
    }
}

/// The required modes never omit the pair: they emit a value or fail.
pub proof fn law_required_modes_never_omit(
    slot: Seq<char>,
    mode: SlottedQueryMode,
    default: Option<Seq<char>>,
    provided: Option<Seq<char>>,
    min: Option<usize>,
    max: Option<usize>,
)
    requires
        mode == SlottedQueryMode::Required || mode == SlottedQueryMode::RequiredAllowEmpty,
    ensures
        slotted_outcome(slot, mode, default, provided, min, max) != Ok::<
            Option<Seq<char>>,
            ErrorView,
        >(None),
{
}

/// `Required` and `Optional` never emit an empty value.
pub proof fn law_nonempty_modes_never_emit_empty(
    slot: Seq<char>,
    mode: SlottedQueryMode,
    default: Option<Seq<char>>,
    provided: Option<Seq<char>>,
    min: Option<usize>,
    max: Option<usize>,
)
    requires
        mode == SlottedQueryMode::Required || mode == SlottedQueryMode::Optional,
    ensures
        slotted_outcome(slot, mode, default, provided, min, max) matches Ok(Some(v)) ==> v.len()
            > 0,
{
}

/// The optional modes omit the pair when the slot is absent and has no default.
pub proof fn law_optional_modes_omit_missing(
    slot: Seq<char>,
    mode: SlottedQueryMode,
    min: Option<usize>,
    max: Option<usize>,
)
    requires
        mode == SlottedQueryMode::Optional || mode == SlottedQueryMode::OptionalAllowEmpty,
    ensures
        slotted_outcome(slot, mode, None, None, min, max) == Ok::<Option<Seq<char>>, ErrorView>(
            None,
        ),
{
}

/// An emitted value always lies within the byte bounds.
pub proof fn law_emitted_value_within_bounds(
    slot: Seq<char>,
    mode: SlottedQueryMode,
    default: Option<Seq<char>>,
    provided: Option<Seq<char>>,
    min: Option<usize>,
    max: Option<usize>,
)
    ensures
        slotted_outcome(slot, mode, default, provided, min, max) matches Ok(Some(v)) ==> {
            &&& min matches Some(lo) ==> byte_count(v) >= lo
            &&& max matches Some(hi) ==> byte_count(v) <= hi
        },
{
}

/// The byte bounds are inclusive and are the only length rule: a value whose length lies
/// between them (ends included) passes the length check, and one outside them fails it.
pub proof fn law_len_check_accepts_exactly_within_bounds(
    slot: Seq<char>,
    len: usize,
    min: Option<usize>,
    max: Option<usize>,
)
    ensures
        len_error(slot, len, min, max) is None <==> (min matches Some(lo) ==> lo <= len) && (
        max matches Some(hi) ==> len <= hi),
{
}

/// A value the mode emits whose length lies within the bounds, ends included, is emitted
/// unchanged.
pub proof fn law_value_within_bounds_is_emitted(
    slot: Seq<char>,
    mode: SlottedQueryMode,
    default: Option<Seq<char>>,
    provided: Option<Seq<char>>,
    min: Option<usize>,
    max: Option<usize>,
    v: Seq<char>,
)
    requires
        query_choice(mode, default, provided) == QueryChoice::Emit(v),
        min matches Some(lo) ==> lo <= byte_count(v),
        max matches Some(hi) ==> byte_count(v) <= hi,
    ensures
        slotted_outcome(slot, mode, default, provided, min, max) == Ok::<Option<Seq<char>>, ErrorView>(Some(v)),
{
}

/// The view of an optional string.
pub open spec fn opt_view(o: Option<&str>) -> Option<Seq<char>> {
    match o {
        Some(s) => Some(s@),
        None => None,
    }
}

/// Checks the UTF-8 byte length of `value` against optional bounds.
pub fn validate_byte_len(slot: &str, value: &str, min_bytes: Option<usize>, max_bytes: Option<usize>) -> (r:
    Result<(), ConfigError>)
    ensures
        reports(r, len_error(slot@, byte_count(value@), min_bytes, max_bytes)),
        r is Ok <==> (min_bytes matches Some(lo) ==> lo <= byte_count(value@)) && (
        max_bytes matches Some(hi) ==> byte_count(value@) <= hi),
{
    let len = byte_len(value);
    if let Some(min) = min_bytes {
        if len < min {
            return Err(ConfigError::ValueTooShort { slot: String::from_str(slot), len, min });
        }
    }
    if let Some(max) = max_bytes {
        if len > max {
            return Err(ConfigError::ValueTooLong { slot: String::from_str(slot), len, max });
        }
    }
    Ok(())
}

/// Checks that a lower byte bound does not exceed an upper one.
pub fn validate_min_max_bounds(slot: &str, min_bytes: Option<usize>, max_bytes: Option<usize>) -> (r:
    Result<(), ConfigError>)
    ensures
        reports(r, bounds_error(slot@, min_bytes, max_bytes)),
        r is Ok <==> !(min_bytes matches Some(lo) && max_bytes matches Some(hi) && lo > hi),
{
    if let (Some(min), Some(max)) = (min_bytes, max_bytes) {
        if min > max {
            return Err(ConfigError::InvalidByteBounds { slot: String::from_str(slot), min, max });
        }
    }
    Ok(())
}

/// Checks that a query key is not empty.
pub fn validate_query_key(key: &str) -> (r: Result<(), ConfigError>)
    ensures
        reports(r, if key@.len() == 0 { Some(ErrorView::EmptyQueryKey) } else { None }),
{
    if key.is_empty() {
        Err(ConfigError::EmptyQueryKey)
    } else {
        Ok(())
    }
}

/// Checks that `slot` is a valid slot name: ASCII letters, digits, `_` and `-`, at least one.
pub fn validate_slot_name(slot: &str) -> (r: Result<(), ConfigError>)
    ensures
        reports(
            r,
            if slot_name_ok(slot@) {
                None
            } else {
                Some(ErrorView::InvalidSlotName { slot: slot@ })
            },
        ),
{
    let chars = chars_of(slot);
    if chars.len() == 0 {
        return Err(ConfigError::InvalidSlotName { slot: String::from_str(slot) });
    }
    let mut i: usize = 0;
    while i < chars.len()
        invariant
            i <= chars@.len(),
            chars@ == slot@,
            forall|k: int| 0 <= k < i ==> crate::template::is_slot_char(#[trigger] slot@[k]),
        decreases chars@.len() - i,
    {
        let c = chars[i];
        if !(('a' <= c && c <= 'z') || ('A' <= c && c <= 'Z') || ('0' <= c && c <= '9') || c == '_'
            || c == '-') {
            return Err(ConfigError::InvalidSlotName { slot: String::from_str(slot) });
        }
        i = i + 1;
    }
    Ok(())
}

/// Resolves the value a slotted query rule emits, or `None` when it emits nothing.
pub fn resolve_slotted_query_value(
    slot: &str,
    mode: SlottedQueryMode,
    default: Option<&str>,
    provided: Option<&str>,
    min_bytes: Option<usize>,
    max_bytes: Option<usize>,
) -> (r: Result<Option<String>, ConfigError>)
    ensures
        match (r, slotted_outcome(slot@, mode, opt_view(default), opt_view(provided), min_bytes, max_bytes)) {
            (Ok(Some(v)), Ok(Some(w))) => v@ == w,
            (Ok(None), Ok(None)) => true,
            (Err(e), Err(x)) => e@ == x,
            _ => false,
        },
{
    let candidate = match provided {
        Some(v) => Some(v),
        None => default,
    };
    let value = match mode {
        SlottedQueryMode::Required => match candidate {
            None => {
                return Err(ConfigError::MissingQueryValue { slot: String::from_str(slot) });
            },
            Some(v) => {
                if v.is_empty() {
                    return Err(ConfigError::EmptyQueryValue { slot: String::from_str(slot) });
                }
                v
            },
        },
        SlottedQueryMode::RequiredAllowEmpty => match candidate {
            None => {
                return Err(ConfigError::MissingQueryValue { slot: String::from_str(slot) });
            },
            Some(v) => v,
        },
        SlottedQueryMode::Optional => match candidate {
            None => {
                return Ok(None);
            },
            Some(v) => {
                if v.is_empty() {
                    return Ok(None);
                }
                v
            },
        },
        SlottedQueryMode::OptionalAllowEmpty => match candidate {
            None => {
                return Ok(None);
            },
            Some(v) => v,
        },
    };
    match validate_byte_len(slot, value, min_bytes, max_bytes) {
        Ok(()) => Ok(Some(String::from_str(value))),
        Err(e) => Err(e),
    }
}

} // verus!
