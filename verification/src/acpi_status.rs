//! ACPI status codes.
//!
//! A status is a 32-bit value whose high bits name the class of the
//! exception (environmental, programmer, table, AML, control) and
//! whose low bits number it within the class.  The interpreter itself
//! is an outside collaborator; only the code arithmetic lives here.

use vstd::prelude::*;

verus! {

#[allow(non_camel_case_types)]
pub type ACPI_STATUS = u32;

pub const AE_CODE_ENVIRONMENTAL: u32 = 0x0000;

pub const AE_CODE_PROGRAMMER: u32 = 0x1000;

pub const AE_CODE_ACPI_TABLES: u32 = 0x2000;

pub const AE_CODE_AML: u32 = 0x3000;

pub const AE_CODE_CONTROL: u32 = 0x4000;

pub const AE_OK: ACPI_STATUS = 0x0000;

/// An environmental exception with the given number.
#[allow(non_snake_case)]
pub fn EXCEP_ENV(code: u32) -> (r: ACPI_STATUS)
    ensures
        r == code | AE_CODE_ENVIRONMENTAL,
{
    code | AE_CODE_ENVIRONMENTAL
}

/// A programmer exception with the given number.
#[allow(non_snake_case)]
pub fn EXCEP_PGM(code: u32) -> (r: ACPI_STATUS)
    ensures
        r == code | AE_CODE_PROGRAMMER,
{
    code | AE_CODE_PROGRAMMER
}

/// A table exception with the given number.
#[allow(non_snake_case)]
pub fn EXCEP_TBL(code: u32) -> (r: ACPI_STATUS)
    ensures
        r == code | AE_CODE_ACPI_TABLES,
{
    code | AE_CODE_ACPI_TABLES
}

/// An AML exception with the given number.
#[allow(non_snake_case)]
pub fn EXCEP_AML(code: u32) -> (r: ACPI_STATUS)
    ensures
        r == code | AE_CODE_AML,
{
    code | AE_CODE_AML
}

/// A control exception with the given number.
#[allow(non_snake_case)]
pub fn EXCEP_CTL(code: u32) -> (r: ACPI_STATUS)
    ensures
        r == code | AE_CODE_CONTROL,
{
    code | AE_CODE_CONTROL
}

} // verus!
