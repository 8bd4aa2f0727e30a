//! Passport elements that a user shared with the bot, in encrypted form.
use crate::passport_file::PassportFile;
use vstd::prelude::*;

verus! {

/// A document or other passport element that the user shared with the bot.
#[derive(Clone, Debug, PartialEq, Eq, Hash)]
#[non_exhaustive]
pub struct EncryptedPassportElement {
    /// Base64-encoded element hash, for use in an unspecified element error.
    pub hash: String,
    /// The element itself.
    pub kind: EncryptedPassportElementKind,
}

impl EncryptedPassportElement {
    pub fn new(hash: String, kind: EncryptedPassportElementKind) -> (r: Self)
        ensures
            r.hash == hash,
            r.kind == kind,
    {
        Self { hash, kind }
    }

    pub fn hash(self, val: String) -> (r: Self)
        ensures
            r == (Self { hash: val, ..self }),
    {
        Self { hash: val, ..self }
    }

    pub fn kind(self, val: EncryptedPassportElementKind) -> (r: Self)
        ensures
            r == (Self { kind: val, ..self }),
    {
        Self { kind: val, ..self }
    }
}

/// The kinds of passport element, each with its own fields.
#[derive(Clone, Debug, PartialEq, Eq, Hash)]
pub enum EncryptedPassportElementKind {
    PersonalDetails(EncryptedPassportElementPersonalDetails),
    Passport(EncryptedPassportElementPassport),
    DriverLicense(EncryptedPassportElementDriverLicense),
    IdentityCard(EncryptedPassportElementIdentityCard),
    InternalPassport(EncryptedPassportElementInternalPassport),
    Address(EncryptedPassportElementAddress),
    UtilityBill(EncryptedPassportElementUtilityBill),
    BankStatement(EncryptedPassportElementBankStatement),
    RentalAgreement(EncryptedPassportElementRentalAgreement),
    PassportRegistration(EncryptedPassportElementPassportRegistration),
    EncryptedPassportElement(EncryptedPassportElementTemporaryRegistration),
    PhoneNumber(EncryptedPassportElementPhoneNumber),
    Email(EncryptedPassportElementEmail),
}

/// The fields of personal details.
#[derive(Clone, Debug, PartialEq, Eq, Hash)]
#[non_exhaustive]
pub struct EncryptedPassportElementPersonalDetails {
    /// Base64-encoded encrypted element data provided by the user, available
    /// for personal details, passports, driver licenses, identity cards,
    /// internal passports and addresses. It can be decrypted and verified
    /// with the accompanying encrypted credentials.
    pub data: String,
}

impl EncryptedPassportElementPersonalDetails {
    pub fn new(data: String) -> (r: Self)
        ensures
            r.data == data,
    {
        Self { data }
    }

    pub fn data(self, val: String) -> (r: Self)
        ensures
            r == (Self { data: val, ..self }),
    {
        Self { data: val, ..self }
    }
}

/// The fields of a passport.
#[derive(Clone, Debug, PartialEq, Eq, Hash)]
#[non_exhaustive]
pub struct EncryptedPassportElementPassport {
    /// Base64-encoded encrypted element data provided by the user, available
    /// for personal details, passports, driver licenses, identity cards,
    /// internal passports and addresses. It can be decrypted and verified
    /// with the accompanying encrypted credentials.
    pub data: String,

    /// Encrypted file with the front side of the document, provided by the
    /// user.
    pub front_side: PassportFile,

    /// Encrypted file with the selfie of the user holding the document.
    pub selfie: PassportFile,

    /// Encrypted files with translated versions of the documents provided
    /// by the user, where they were requested.
    pub translation: Option<Vec<PassportFile>>,
}

impl EncryptedPassportElementPassport {
    pub fn new(data: String, front_side: PassportFile, selfie: PassportFile) -> (r: Self)
        ensures
            r.data == data,
            r.front_side == front_side,
            r.selfie == selfie,
            r.translation.is_none(),
    {
        Self { data, front_side, selfie, translation: None }
    }

    pub fn data(self, val: String) -> (r: Self)
        ensures
            r == (Self { data: val, ..self }),
    {
        Self { data: val, ..self }
    }

    pub fn front_side(self, val: PassportFile) -> (r: Self)
        ensures
            r == (Self { front_side: val, ..self }),
    {
        Self { front_side: val, ..self }
    }

    pub fn selfie(self, val: PassportFile) -> (r: Self)
        ensures
            r == (Self { selfie: val, ..self }),
    {
        Self { selfie: val, ..self }
    }

    pub fn translation(self, val: Vec<PassportFile>) -> (r: Self)
        ensures
            r == (Self { translation: Some(val), ..self }),
    {
        Self { translation: Some(val), ..self }
    }
}

/// The fields of a driver license.
#[derive(Clone, Debug, PartialEq, Eq, Hash)]
#[non_exhaustive]
pub struct EncryptedPassportElementDriverLicense {
    /// Base64-encoded encrypted element data provided by the user, available
    /// for personal details, passports, driver licenses, identity cards,
    /// internal passports and addresses. It can be decrypted and verified
    /// with the accompanying encrypted credentials.
    pub data: String,

    /// Encrypted file with the front side of the document, provided by the
    /// user.
    pub front_side: PassportFile,

    /// Encrypted file with the reverse side of the document, provided by
    /// the user.
    pub reverse_side: PassportFile,

    /// Encrypted file with the selfie of the user holding the document.
    pub selfie: PassportFile,

    /// Encrypted files with translated versions of the documents provided
    /// by the user, where they were requested.
    pub translation: Option<Vec<PassportFile>>,
}

impl EncryptedPassportElementDriverLicense {
    pub fn new(data: String, front_side: PassportFile, reverse_side: PassportFile, selfie: PassportFile) -> (r: Self)
        ensures
            r.data == data,
            r.front_side == front_side,
            r.reverse_side == reverse_side,
            r.selfie == selfie,
            r.translation.is_none(),
    {
        Self { data, front_side, reverse_side, selfie, translation: None }
    }

    pub fn data(self, val: String) -> (r: Self)
        ensures
            r == (Self { data: val, ..self }),
    {
        Self { data: val, ..self }
    }

    pub fn front_side(self, val: PassportFile) -> (r: Self)
        ensures
            r == (Self { front_side: val, ..self }),
    {
        Self { front_side: val, ..self }
    }

    pub fn reverse_side(self, val: PassportFile) -> (r: Self)
        ensures
            r == (Self { reverse_side: val, ..self }),
    {
        Self { reverse_side: val, ..self }
    }

    pub fn selfie(self, val: PassportFile) -> (r: Self)
        ensures
            r == (Self { selfie: val, ..self }),
    {
        Self { selfie: val, ..self }
    }

    pub fn translation(self, val: Vec<PassportFile>) -> (r: Self)
        ensures
            r == (Self { translation: Some(val), ..self }),
    {
        Self { translation: Some(val), ..self }
    }
}

/// The fields of an identity card.
#[derive(Clone, Debug, PartialEq, Eq, Hash)]
#[non_exhaustive]
pub struct EncryptedPassportElementIdentityCard {
    /// Base64-encoded encrypted element data provided by the user, available
    /// for personal details, passports, driver licenses, identity cards,
    /// internal passports and addresses. It can be decrypted and verified
    /// with the accompanying encrypted credentials.
    pub data: String,

    /// Encrypted file with the front side of the document, provided by the
    /// user.
    pub front_side: PassportFile,

    /// Encrypted file with the reverse side of the document, provided by
    /// the user.
    pub reverse_side: PassportFile,

    /// Encrypted file with the selfie of the user holding the document.
    pub selfie: PassportFile,

    /// Encrypted files with translated versions of the documents provided
    /// by the user, where they were requested.
    pub translation: Option<Vec<PassportFile>>,
}

impl EncryptedPassportElementIdentityCard {
    pub fn new(data: String, front_side: PassportFile, reverse_side: PassportFile, selfie: PassportFile) -> (r: Self)
        ensures
            r.data == data,
            r.front_side == front_side,
            r.reverse_side == reverse_side,
            r.selfie == selfie,
            r.translation.is_none(),
    {
        Self { data, front_side, reverse_side, selfie, translation: None }
    }

    pub fn data(self, val: String) -> (r: Self)
        ensures
            r == (Self { data: val, ..self }),
    {
        Self { data: val, ..self }
    }

    pub fn front_side(self, val: PassportFile) -> (r: Self)
        ensures
            r == (Self { front_side: val, ..self }),
    {
        Self { front_side: val, ..self }
    }

    pub fn reverse_side(self, val: PassportFile) -> (r: Self)
        ensures
            r == (Self { reverse_side: val, ..self }),
    {
        Self { reverse_side: val, ..self }
    }

    pub fn selfie(self, val: PassportFile) -> (r: Self)
        ensures
            r == (Self { selfie: val, ..self }),
    {
        Self { selfie: val, ..self }
    }

    pub fn translation(self, val: Vec<PassportFile>) -> (r: Self)
        ensures
            r == (Self { translation: Some(val), ..self }),
    {
        Self { translation: Some(val), ..self }
    }
}

/// The fields of an internal passport.
#[derive(Clone, Debug, PartialEq, Eq, Hash)]
#[non_exhaustive]
pub struct EncryptedPassportElementInternalPassport {
    /// Base64-encoded encrypted element data provided by the user, available
    /// for personal details, passports, driver licenses, identity cards,
    /// internal passports and addresses. It can be decrypted and verified
    /// with the accompanying encrypted credentials.
    pub data: String,

    /// Encrypted file with the front side of the document, provided by the
    /// user.
    pub front_side: PassportFile,

    /// Encrypted file with the selfie of the user holding the document.
    pub selfie: PassportFile,

    /// Encrypted files with translated versions of the documents provided
    /// by the user, where they were requested.
    pub translation: Option<Vec<PassportFile>>,
}

impl EncryptedPassportElementInternalPassport {
    pub fn new(data: String, front_side: PassportFile, selfie: PassportFile) -> (r: Self)
        ensures
            r.data == data,
            r.front_side == front_side,
            r.selfie == selfie,
            r.translation.is_none(),
    {
        Self { data, front_side, selfie, translation: None }
    }

    pub fn data(self, val: String) -> (r: Self)
        ensures
            r == (Self { data: val, ..self }),
    {
        Self { data: val, ..self }
    }

    pub fn front_side(self, val: PassportFile) -> (r: Self)
        ensures
            r == (Self { front_side: val, ..self }),
    {
        Self { front_side: val, ..self }
    }

    pub fn selfie(self, val: PassportFile) -> (r: Self)
        ensures
            r == (Self { selfie: val, ..self }),
    {
        Self { selfie: val, ..self }
    }

    pub fn translation(self, val: Vec<PassportFile>) -> (r: Self)
        ensures
            r == (Self { translation: Some(val), ..self }),
    {
        Self { translation: Some(val), ..self }
    }
}

/// The fields of an address.
#[derive(Clone, Debug, PartialEq, Eq, Hash)]
#[non_exhaustive]
pub struct EncryptedPassportElementAddress {
    /// Base64-encoded encrypted element data provided by the user, available
    /// for personal details, passports, driver licenses, identity cards,
    /// internal passports and addresses. It can be decrypted and verified
    /// with the accompanying encrypted credentials.
    pub data: String,
}

impl EncryptedPassportElementAddress {
    pub fn new(data: String) -> (r: Self)
        ensures
            r.data == data,
    {
        Self { data }
    }

    pub fn data(self, val: String) -> (r: Self)
        ensures
            r == (Self { data: val, ..self }),
    {
        Self { data: val, ..self }
    }
}

/// The fields of a utility bill.
#[derive(Clone, Debug, PartialEq, Eq, Hash)]
#[non_exhaustive]
pub struct EncryptedPassportElementUtilityBill {
    /// Encrypted files with the documents provided by the user.
    pub files: Vec<PassportFile>,

    /// Encrypted files with translated versions of the documents provided
    /// by the user, where they were requested.
    pub translation: Option<Vec<PassportFile>>,
}

impl EncryptedPassportElementUtilityBill {
    pub fn new(files: Vec<PassportFile>) -> (r: Self)
        ensures
            r.files == files,
            r.translation.is_none(),
    {
        Self { files, translation: None }
    }

    pub fn files(self, val: Vec<PassportFile>) -> (r: Self)
        ensures
            r == (Self { files: val, ..self }),
    {
        Self { files: val, ..self }
    }

    pub fn translation(self, val: Vec<PassportFile>) -> (r: Self)
        ensures
            r == (Self { translation: Some(val), ..self }),
    {
        Self { translation: Some(val), ..self }
    }
}

/// The fields of a bank statement.
#[derive(Clone, Debug, PartialEq, Eq, Hash)]
#[non_exhaustive]
pub struct EncryptedPassportElementBankStatement {
    /// Encrypted files with the documents provided by the user.
    pub files: Vec<PassportFile>,

    /// Encrypted files with translated versions of the documents provided
    /// by the user, where they were requested.
    pub translation: Option<Vec<PassportFile>>,
}

impl EncryptedPassportElementBankStatement {
    pub fn new(files: Vec<PassportFile>) -> (r: Self)
        ensures
            r.files == files,
            r.translation.is_none(),
    {
        Self { files, translation: None }
    }

    pub fn files(self, val: Vec<PassportFile>) -> (r: Self)
        ensures
            r == (Self { files: val, ..self }),
    {
        Self { files: val, ..self }
    }

    pub fn translation(self, val: Vec<PassportFile>) -> (r: Self)
        ensures
            r == (Self { translation: Some(val), ..self }),
    {
        Self { translation: Some(val), ..self }
    }
}

/// The fields of a rental agreement.
#[derive(Clone, Debug, PartialEq, Eq, Hash)]
#[non_exhaustive]
pub struct EncryptedPassportElementRentalAgreement {
    /// Encrypted files with the documents provided by the user.
    pub files: Vec<PassportFile>,

    /// Encrypted files with translated versions of the documents provided
    /// by the user, where they were requested.
    pub translation: Option<Vec<PassportFile>>,
}

impl EncryptedPassportElementRentalAgreement {
    pub fn new(files: Vec<PassportFile>) -> (r: Self)
        ensures
            r.files == files,
            r.translation.is_none(),
    {
        Self { files, translation: None }
    }

    pub fn files(self, val: Vec<PassportFile>) -> (r: Self)
        ensures
            r == (Self { files: val, ..self }),
    {
        Self { files: val, ..self }
    }

    pub fn translation(self, val: Vec<PassportFile>) -> (r: Self)
        ensures
            r == (Self { translation: Some(val), ..self }),
    {
        Self { translation: Some(val), ..self }
    }
}

/// The fields of a passport registration.
#[derive(Clone, Debug, PartialEq, Eq, Hash)]
#[non_exhaustive]
pub struct EncryptedPassportElementPassportRegistration {
    /// Encrypted files with the documents provided by the user.
    pub files: Vec<PassportFile>,

    /// Encrypted files with translated versions of the documents provided
    /// by the user, where they were requested.
    pub translation: Option<Vec<PassportFile>>,
}

impl EncryptedPassportElementPassportRegistration {
    pub fn new(files: Vec<PassportFile>) -> (r: Self)
        ensures
            r.files == files,
            r.translation.is_none(),
    {
        Self { files, translation: None }
    }

    pub fn files(self, val: Vec<PassportFile>) -> (r: Self)
        ensures
            r == (Self { files: val, ..self }),
    {
        Self { files: val, ..self }
    }

    pub fn translation(self, val: Vec<PassportFile>) -> (r: Self)
        ensures
            r == (Self { translation: Some(val), ..self }),
    {
        Self { translation: Some(val), ..self }
    }
}

/// The fields of a temporary registration.
#[derive(Clone, Debug, PartialEq, Eq, Hash)]
#[non_exhaustive]
pub struct EncryptedPassportElementTemporaryRegistration {
    /// Encrypted files with the documents provided by the user.
    pub files: Vec<PassportFile>,

    /// Encrypted files with translated versions of the documents provided
    /// by the user, where they were requested.
    pub translation: Option<Vec<PassportFile>>,
}

impl EncryptedPassportElementTemporaryRegistration {
    pub fn new(files: Vec<PassportFile>) -> (r: Self)
        ensures
            r.files == files,
            r.translation.is_none(),
    {
        Self { files, translation: None }
    }

    pub fn files(self, val: Vec<PassportFile>) -> (r: Self)
        ensures
            r == (Self { files: val, ..self }),
    {
        Self { files: val, ..self }
    }

    pub fn translation(self, val: Vec<PassportFile>) -> (r: Self)
        ensures
            r == (Self { translation: Some(val), ..self }),
    {
        Self { translation: Some(val), ..self }
    }
}

/// The fields of a phone number.
#[derive(Clone, Debug, PartialEq, Eq, Hash)]
#[non_exhaustive]
pub struct EncryptedPassportElementPhoneNumber {
    /// The user's verified phone number.
    pub phone_number: String,
}

impl EncryptedPassportElementPhoneNumber {
    pub fn new(phone_number: String) -> (r: Self)
        ensures
            r.phone_number == phone_number,
    {
        Self { phone_number }
    }

    pub fn phone_number(self, val: String) -> (r: Self)
        ensures
            r == (Self { phone_number: val, ..self }),
    {
        Self { phone_number: val, ..self }
    }
}

/// The fields of an email address.
#[derive(Clone, Debug, PartialEq, Eq, Hash)]
#[non_exhaustive]
pub struct EncryptedPassportElementEmail {
    /// The user's verified email address.
    pub email: String,
}

impl EncryptedPassportElementEmail {
    pub fn new(email: String) -> (r: Self)
        ensures
            r.email == email,
    {
        Self { email }
    }

    pub fn email(self, val: String) -> (r: Self)
        ensures
            r == (Self { email: val, ..self }),
    {
        Self { email: val, ..self }
    }
}

} // verus!
