//! The data-element dictionary: what each EMV tag is called and how its
//! value is encoded.
use vstd::prelude::*;

verus! {

/// How the value of a data element is encoded.
#[derive(Debug, PartialEq, Eq, Clone, Copy)]
pub enum ElementType {
    Alphabetic,
    Alphanumeric,
    AlphanumericSpecial,
    Binary,
    /// Compressed numeric: packed digits padded with 0xF.
    DigitString,
    /// Packed BCD read as one integer.
    Numeric,
    Template,
    Dol,
}

/// An entry of the dictionary.
#[derive(Debug, Clone, Copy)]
pub struct DataElement {
    pub tag: u16,
    pub name: &'static str,
    pub short_name: Option<&'static str>,
    pub typ: ElementType,
}

/// The encoding of the value of `tag`; tags that the dictionary does not
/// list, or lists as binary, are binary.
pub open spec fn tag_type(tag: u16) -> ElementType {
    match tag {
        0x0042 => ElementType::Numeric,
        0x0050 => ElementType::AlphanumericSpecial,
        0x005a => ElementType::DigitString,
        0x0061 => ElementType::Template,
        0x006f => ElementType::Template,
        0x0070 => ElementType::Template,
        0x0071 => ElementType::Template,
        0x0072 => ElementType::Template,
        0x0073 => ElementType::Template,
        0x0077 => ElementType::Template,
        0x008c => ElementType::Dol,
        0x008d => ElementType::Dol,
        0x0097 => ElementType::Dol,
        0x00a5 => ElementType::Template,
        0x5f20 => ElementType::AlphanumericSpecial,
        0x5f2a => ElementType::Numeric,
        0x5f2d => ElementType::Alphanumeric,
        0x5f55 => ElementType::Alphabetic,
        0x5f56 => ElementType::Alphabetic,
        0x9f0b => ElementType::AlphanumericSpecial,
        0x9f12 => ElementType::AlphanumericSpecial,
        0x9f38 => ElementType::Dol,
        0x9f49 => ElementType::Dol,
        0xbf0c => ElementType::Template,
        _ => ElementType::Binary,
    }
}

/// The name the dictionary gives `tag`, for the tags it lists.
pub open spec fn tag_name(tag: u16) -> Option<Seq<char>> {
    match tag {
        0x0042 => Some("Issuer Identification Number (IIN)"@),
        0x004f => Some("Application Dedicated File (ADF) Name"@),
        0x0050 => Some("Application Label"@),
        0x0057 => Some("Track 2 Equivalent Data"@),
        0x005a => Some("Application Primary Account Number (PAN)"@),
        0x0061 => Some("Application Template"@),
        0x006f => Some("File Control Information (FCI) Template"@),
        0x0070 => Some("READ RECORD Response Message Template"@),
        0x0071 => Some("Issuer Script Template 1"@),
        0x0072 => Some("Issuer Script Template 2"@),
        0x0073 => Some("Directory Discretionary Template"@),
        0x0077 => Some("Response Message Template Format 2"@),
        0x0080 => Some("Response Message Template Format 1"@),
        0x0081 => Some("Amount, Authorised (Binary)"@),
        0x0082 => Some("Application Interchange Profile"@),
        0x0083 => Some("Command Template"@),
        0x0084 => Some("Dedicated File (DF) Name"@),
        0x0086 => Some("Issuer Script Command"@),
        0x0087 => Some("Application Priority Indicator"@),
        0x0088 => Some("Short File Identifier (SFI)"@),
        0x0089 => Some("Authorisation Code"@),
        0x008a => Some("Authorisation Response Code"@),
        0x008c => Some("Card Risk Management Data Object List 1 (CDOL1)"@),
        0x008d => Some("Card Risk Management Data Object List 2 (CDOL2)"@),
        0x008e => Some("Cardholder Verification Method (CVM) List"@),
        0x008f => Some("Certification Authority Public Key Index"@),
        0x0090 => Some("Issuer Public Key Certificate"@),
        0x0091 => Some("Issuer Authentication Data"@),
        0x0092 => Some("Issuer Public Key Remainder"@),
        0x0093 => Some("Signed Static Application Data"@),
        0x0094 => Some("Application File Locator (AFL)"@),
        0x0095 => Some("Terminal Verification Results"@),
        0x0097 => Some("Transaction Certificate Data Object List (TDOL)"@),
        0x0098 => Some("Transaction Certificate (TC) Hash Value"@),
        0x009a => Some("Transaction Date"@),
        0x009b => Some("Transaction Status Information"@),
        0x009c => Some("Transaction Type"@),
        0x009d => Some("Directory Definition File (DDF) Name"@),
        0x00a5 => Some("File Control Information (FCI) Proprietary Template"@),
        0x5f20 => Some("Cardholder Name"@),
        0x5f24 => Some("Application Expiration Date"@),
        0x5f25 => Some("Application Effective Date"@),
        0x5f28 => Some("Issuer Country Code"@),
        0x5f2a => Some("Transaction Currency Code"@),
        0x5f2d => Some("Language Preference"@),
        0x5f30 => Some("Service Code"@),
        0x5f36 => Some("Transaction Currency Exponent"@),
        0x5f50 => Some("Issuer URL"@),
        0x5f53 => Some("International Bank Account Number (IBAN)"@),
        0x5f54 => Some("Bank Identifier Code (BIC)"@),
        0x5f55 => Some("Issuer Country Code (alpha2 format)"@),
        0x5f56 => Some("Issuer Country Code (alpha3 format)"@),
        0x5f57 => Some("Account Type"@),
        0x9f01 => Some("Acquirer Identifier"@),
        0x9f02 => Some("Amount, Authorised (Numeric)"@),
        0x9f03 => Some("Amount, Other (Numeric)"@),
        0x9f04 => Some("Amount, Other (Binary)"@),
        0x9f05 => Some("Application Discretionary Data"@),
        0x9f06 => Some("Application Identifier (AID) - terminal"@),
        0x9f07 => Some("Application Usage Control"@),
        0x9f08 => Some("Application Version Number"@),
        0x9f09 => Some("Application Version Number"@),
        0x9f0b => Some("Cardholder Name Extended"@),
        0x9f0d => Some("Issuer Action Code - Default"@),
        0x9f0e => Some("Issuer Action Code - Denial"@),
        0x9f0f => Some("Issuer Action Code - Online"@),
        0x9f10 => Some("Issuer Application Data"@),
        0x9f11 => Some("Issuer Code Table Index"@),
        0x9f12 => Some("Application Preferred Name"@),
        0x9f14 => Some("Lower Consecutive Offline Limit"@),
        0x9f15 => Some("Merchant Category Code"@),
        0x9f16 => Some("Merchant Identifier"@),
        0x9f17 => Some("Personal Identification Number (PIN) Try Counter"@),
        0x9f18 => Some("Issuer Script Identifier"@),
        0x9f1a => Some("Terminal Country Code"@),
        0x9f1b => Some("Terminal Floor Limit"@),
        0x9f1c => Some("Terminal Identification"@),
        0x9f1d => Some("Terminal Risk Management Data"@),
        0x9f1e => Some("Interface Device (IFD) Serial Number"@),
        0x9f1f => Some("Track 1 Discretionary Data"@),
        0x9f20 => Some("Track 2 Discretionary Data"@),
        0x9f21 => Some("Transaction Time"@),
        0x9f22 => Some("Certification Authority Public Key Index"@),
        0x9f23 => Some("Upper Consecutive Offline Limit"@),
        0x9f26 => Some("Application Cryptogram"@),
        0x9f27 => Some("Cryptogram Information Data"@),
        0x9f2d => Some("ICC PIN Encipherment Public Key Certificate"@),
        0x9f2e => Some("ICC PIN Encipherment Public Key Exponent"@),
        0x9f2f => Some("ICC PIN Encipherment Public Key Remainder"@),
        0x9f32 => Some("Issuer Public Key Exponent"@),
        0x9f33 => Some("Terminal Capabilities"@),
        0x9f34 => Some("Cardholder Verification Method (CVM) Results"@),
        0x9f35 => Some("Terminal Type"@),
        0x9f36 => Some("Application Transaction Counter (ATC)"@),
        0x9f37 => Some("Unpredictable Number"@),
        0x9f38 => Some("Processing Options Data Object List (PDOL)"@),
        0x9f39 => Some("Point-of-Service (POS) Entry Mode"@),
        0x9f3a => Some("Amount, Reference Currency"@),
        0x9f3b => Some("Application Reference Currency"@),
        0x9f3c => Some("Transaction Reference Currency Code"@),
        0x9f3d => Some("Transaction Reference Currency Exponent"@),
        0x9f40 => Some("Additional Terminal Capabilities"@),
        0x9f41 => Some("Transaction Sequence Counter"@),
        0x9f42 => Some("Application Currency Code"@),
        0x9f43 => Some("Application Reference Currency Exponent"@),
        0x9f44 => Some("Application Currency Exponent"@),
        0x9f45 => Some("Data Authentication Code"@),
        0x9f46 => Some("ICC Public Key Certificate"@),
        0x9f47 => Some("ICC Public Key Exponent"@),
        0x9f48 => Some("ICC Public Key Remainder"@),
        0x9f49 => Some("Dynamic Data Authentication Data Object List (DDOL)"@),
        0x9f4a => Some("Static Data Authentication Tag List"@),
        0x9f4b => Some("Signed Dynamic Application Data"@),
        0x9f4c => Some("ICC Dynamic Number"@),
        0x9f4d => Some("Log Entry"@),
        0x9f4e => Some("Merchant Name and Location"@),
        0x9f4f => Some("Log Format"@),
        0xbf0c => Some("FCI Issuer Discretionary Data"@),
        _ => None,
    }
}

/// Looks `tag` up in the dictionary.
pub fn element(tag: u16) -> (r: Option<DataElement>)
    ensures
        r is Some <==> tag_name(tag) is Some,
        match r {
            Some(e) => e.tag == tag && e.typ == tag_type(tag) && Some(e.name@) == tag_name(tag),
            None => tag_type(tag) == ElementType::Binary,
        },
{
    let (name, short_name, typ) = match tag {
        0x0042 => ("Issuer Identification Number (IIN)", None, ElementType::Numeric),
        0x004f => ("Application Dedicated File (ADF) Name", None, ElementType::Binary),
        0x0050 => ("Application Label", None, ElementType::AlphanumericSpecial),
        0x0057 => ("Track 2 Equivalent Data", None, ElementType::Binary),
        0x005a => ("Application Primary Account Number (PAN)", Some("PAN"), ElementType::DigitString),
        0x0061 => ("Application Template", None, ElementType::Template),
        0x006f => ("File Control Information (FCI) Template", None, ElementType::Template),
        0x0070 => ("READ RECORD Response Message Template", None, ElementType::Template),
        0x0071 => ("Issuer Script Template 1", None, ElementType::Template),
        0x0072 => ("Issuer Script Template 2", None, ElementType::Template),
        0x0073 => ("Directory Discretionary Template", None, ElementType::Template),
        0x0077 => ("Response Message Template Format 2", None, ElementType::Template),
        0x0080 => ("Response Message Template Format 1", None, ElementType::Binary),
        0x0081 => ("Amount, Authorised (Binary)", None, ElementType::Binary),
        0x0082 => ("Application Interchange Profile", None, ElementType::Binary),
        0x0083 => ("Command Template", None, ElementType::Binary),
        0x0084 => ("Dedicated File (DF) Name", None, ElementType::Binary),
        0x0086 => ("Issuer Script Command", None, ElementType::Binary),
        0x0087 => ("Application Priority Indicator", None, ElementType::Binary),
        0x0088 => ("Short File Identifier (SFI)", None, ElementType::Binary),
        0x0089 => ("Authorisation Code", None, ElementType::Binary),
        0x008a => ("Authorisation Response Code", None, ElementType::Binary),
        0x008c => ("Card Risk Management Data Object List 1 (CDOL1)", None, ElementType::Dol),
        0x008d => ("Card Risk Management Data Object List 2 (CDOL2)", None, ElementType::Dol),
        0x008e => ("Cardholder Verification Method (CVM) List", None, ElementType::Binary),
        0x008f => ("Certification Authority Public Key Index", None, ElementType::Binary),
        0x0090 => ("Issuer Public Key Certificate", None, ElementType::Binary),
        0x0091 => ("Issuer Authentication Data", None, ElementType::Binary),
        0x0092 => ("Issuer Public Key Remainder", None, ElementType::Binary),
        0x0093 => ("Signed Static Application Data", None, ElementType::Binary),
        0x0094 => ("Application File Locator (AFL)", None, ElementType::Binary),
        0x0095 => ("Terminal Verification Results", None, ElementType::Binary),
        0x0097 => ("Transaction Certificate Data Object List (TDOL)", None, ElementType::Dol),
        0x0098 => ("Transaction Certificate (TC) Hash Value", None, ElementType::Binary),
        0x009a => ("Transaction Date", None, ElementType::Binary),
        0x009b => ("Transaction Status Information", None, ElementType::Binary),
        0x009c => ("Transaction Type", None, ElementType::Binary),
        0x009d => ("Directory Definition File (DDF) Name", None, ElementType::Binary),
        0x00a5 => ("File Control Information (FCI) Proprietary Template", None, ElementType::Template),
        0x5f20 => ("Cardholder Name", None, ElementType::AlphanumericSpecial),
        0x5f24 => ("Application Expiration Date", None, ElementType::Binary),
        0x5f25 => ("Application Effective Date", None, ElementType::Binary),
        0x5f28 => ("Issuer Country Code", None, ElementType::Binary),
        0x5f2a => ("Transaction Currency Code", None, ElementType::Numeric),
        0x5f2d => ("Language Preference", None, ElementType::Alphanumeric),
        0x5f30 => ("Service Code", None, ElementType::Binary),
        0x5f36 => ("Transaction Currency Exponent", None, ElementType::Binary),
        0x5f50 => ("Issuer URL", None, ElementType::Binary),
        0x5f53 => ("International Bank Account Number (IBAN)", None, ElementType::Binary),
        0x5f54 => ("Bank Identifier Code (BIC)", None, ElementType::Binary),
        0x5f55 => ("Issuer Country Code (alpha2 format)", None, ElementType::Alphabetic),
        0x5f56 => ("Issuer Country Code (alpha3 format)", None, ElementType::Alphabetic),
        0x5f57 => ("Account Type", None, ElementType::Binary),
        0x9f01 => ("Acquirer Identifier", None, ElementType::Binary),
        0x9f02 => ("Amount, Authorised (Numeric)", None, ElementType::Binary),
        0x9f03 => ("Amount, Other (Numeric)", None, ElementType::Binary),
        0x9f04 => ("Amount, Other (Binary)", None, ElementType::Binary),
        0x9f05 => ("Application Discretionary Data", None, ElementType::Binary),
        0x9f06 => ("Application Identifier (AID) - terminal", None, ElementType::Binary),
        0x9f07 => ("Application Usage Control", None, ElementType::Binary),
        0x9f08 => ("Application Version Number", None, ElementType::Binary),
        0x9f09 => ("Application Version Number", None, ElementType::Binary),
        0x9f0b => ("Cardholder Name Extended", None, ElementType::AlphanumericSpecial),
        0x9f0d => ("Issuer Action Code - Default", None, ElementType::Binary),
        0x9f0e => ("Issuer Action Code - Denial", None, ElementType::Binary),
        0x9f0f => ("Issuer Action Code - Online", None, ElementType::Binary),
        0x9f10 => ("Issuer Application Data", None, ElementType::Binary),
        0x9f11 => ("Issuer Code Table Index", None, ElementType::Binary),
        0x9f12 => ("Application Preferred Name", None, ElementType::AlphanumericSpecial),
        0x9f14 => ("Lower Consecutive Offline Limit", None, ElementType::Binary),
        0x9f15 => ("Merchant Category Code", None, ElementType::Binary),
        0x9f16 => ("Merchant Identifier", None, ElementType::Binary),
        0x9f17 => ("Personal Identification Number (PIN) Try Counter", None, ElementType::Binary),
        0x9f18 => ("Issuer Script Identifier", None, ElementType::Binary),
        0x9f1a => ("Terminal Country Code", None, ElementType::Binary),
        0x9f1b => ("Terminal Floor Limit", None, ElementType::Binary),
        0x9f1c => ("Terminal Identification", None, ElementType::Binary),
        0x9f1d => ("Terminal Risk Management Data", None, ElementType::Binary),
        0x9f1e => ("Interface Device (IFD) Serial Number", None, ElementType::Binary),
        0x9f1f => ("Track 1 Discretionary Data", None, ElementType::Binary),
        0x9f20 => ("Track 2 Discretionary Data", None, ElementType::Binary),
        0x9f21 => ("Transaction Time", None, ElementType::Binary),
        0x9f22 => ("Certification Authority Public Key Index", None, ElementType::Binary),
        0x9f23 => ("Upper Consecutive Offline Limit", None, ElementType::Binary),
        0x9f26 => ("Application Cryptogram", None, ElementType::Binary),
        0x9f27 => ("Cryptogram Information Data", None, ElementType::Binary),
        0x9f2d => ("ICC PIN Encipherment Public Key Certificate", None, ElementType::Binary),
        0x9f2e => ("ICC PIN Encipherment Public Key Exponent", None, ElementType::Binary),
        0x9f2f => ("ICC PIN Encipherment Public Key Remainder", None, ElementType::Binary),
        0x9f32 => ("Issuer Public Key Exponent", None, ElementType::Binary),
        0x9f33 => ("Terminal Capabilities", None, ElementType::Binary),
        0x9f34 => ("Cardholder Verification Method (CVM) Results", None, ElementType::Binary),
        0x9f35 => ("Terminal Type", None, ElementType::Binary),
        0x9f36 => ("Application Transaction Counter (ATC)", None, ElementType::Binary),
        0x9f37 => ("Unpredictable Number", None, ElementType::Binary),
        0x9f38 => ("Processing Options Data Object List (PDOL)", None, ElementType::Dol),
        0x9f39 => ("Point-of-Service (POS) Entry Mode", None, ElementType::Binary),
        0x9f3a => ("Amount, Reference Currency", None, ElementType::Binary),
        0x9f3b => ("Application Reference Currency", None, ElementType::Binary),
        0x9f3c => ("Transaction Reference Currency Code", None, ElementType::Binary),
        0x9f3d => ("Transaction Reference Currency Exponent", None, ElementType::Binary),
        0x9f40 => ("Additional Terminal Capabilities", None, ElementType::Binary),
        0x9f41 => ("Transaction Sequence Counter", None, ElementType::Binary),
        0x9f42 => ("Application Currency Code", None, ElementType::Binary),
        0x9f43 => ("Application Reference Currency Exponent", None, ElementType::Binary),
        0x9f44 => ("Application Currency Exponent", None, ElementType::Binary),
        0x9f45 => ("Data Authentication Code", None, ElementType::Binary),
        0x9f46 => ("ICC Public Key Certificate", None, ElementType::Binary),
        0x9f47 => ("ICC Public Key Exponent", None, ElementType::Binary),
        0x9f48 => ("ICC Public Key Remainder", None, ElementType::Binary),
        0x9f49 => ("Dynamic Data Authentication Data Object List (DDOL)", None, ElementType::Dol),
        0x9f4a => ("Static Data Authentication Tag List", None, ElementType::Binary),
        0x9f4b => ("Signed Dynamic Application Data", None, ElementType::Binary),
        0x9f4c => ("ICC Dynamic Number", None, ElementType::Binary),
        0x9f4d => ("Log Entry", None, ElementType::Binary),
        0x9f4e => ("Merchant Name and Location", None, ElementType::Binary),
        0x9f4f => ("Log Format", None, ElementType::Binary),
        0xbf0c => ("FCI Issuer Discretionary Data", None, ElementType::Template),
        _ => {
            return None;
        },
    };
    Some(DataElement { tag, name, short_name, typ })
}

/// The encoding of the value of `tag`, binary where the dictionary is silent.
pub fn element_type(tag: u16) -> (r: ElementType)
    ensures
        r == tag_type(tag),
{
    match element(tag) {
        Some(e) => e.typ,
        None => ElementType::Binary,
    }
}

} // verus!
