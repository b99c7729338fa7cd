//! Rules for files that hold secrets.
use vstd::prelude::*;
use vstd::string::StringExecFns;

verus! {

/// The longest secret.
pub const MAX_SECRET_FILE: usize = 4096;

#[derive(Clone, Copy, Debug, PartialEq, Eq, Structural)]
pub enum SecretFileError {
    /// The file is empty, too long or no regular file.
    InvalidSize,
    /// Others than the owner may use the file.
    UnsafePermissions,
}

/// Whether others than the owner may use a file.
pub open spec fn open_to_others(mode: u32) -> bool {
    mode & 0o077 != 0
}

/// Whether a file may be read as a secret.
pub fn check_metadata(is_file: bool, length: u64, mode: u32) -> (r: Result<(), SecretFileError>)
    ensures
        r == if !is_file || length == 0 || length > MAX_SECRET_FILE {
            Err::<(), SecretFileError>(SecretFileError::InvalidSize)
        } else if open_to_others(mode) {
            Err(SecretFileError::UnsafePermissions)
        } else {
            Ok(())
        },
{
    if !is_file || length == 0 || length > MAX_SECRET_FILE as u64 {
        return Err(SecretFileError::InvalidSize);
    }
    if mode & 0o077 != 0 {
        return Err(SecretFileError::UnsafePermissions);
    }
    Ok(())
}

/// Whether what was read is short enough.
pub fn check_read(bytes: &[u8]) -> (r: Result<(), SecretFileError>)
    ensures
        r == if bytes@.len() > MAX_SECRET_FILE {
            Err::<(), SecretFileError>(SecretFileError::InvalidSize)
        } else {
            Ok(())
        },
{
    if bytes.len() > MAX_SECRET_FILE {
        return Err(SecretFileError::InvalidSize);
    }
    Ok(())
}

/// Whether bytes may be written as a secret.
pub fn check_written(bytes: &[u8]) -> (r: Result<(), SecretFileError>)
    ensures
        r == if bytes@.len() == 0 || bytes@.len() > MAX_SECRET_FILE {
            Err::<(), SecretFileError>(SecretFileError::InvalidSize)
        } else {
            Ok(())
        },
{
    if bytes.len() == 0 || bytes.len() > MAX_SECRET_FILE {
        return Err(SecretFileError::InvalidSize);
    }
    Ok(())
}

/// The name of the file that is written first and then moved into place.
pub fn temporary_name(name: Option<&str>) -> (r: String)
    ensures
        r@ == "."@ + match name {
            Some(name) => name@,
            None => "secret"@,
        } + ".tmp"@,
{
    let mut temporary = String::from_str(".");
    match name {
        Some(name) => temporary.append(name),
        None => temporary.append("secret"),
    }
    temporary.append(".tmp");
    temporary
}

/// A secret is read only from a regular file that holds something, is not too
/// long, and is closed to everybody but its owner.
pub proof fn law_secrets_are_private(is_file: bool, length: u64, mode: u32, r: Result<(), SecretFileError>)
    requires
        call_ensures(check_metadata, (is_file, length, mode), r),
    ensures
        r is Ok ==> is_file && 1 <= length <= 4_096,
        r is Ok ==> mode & 0o070 == 0 && mode & 0o007 == 0,
        mode & 0o070 != 0 || mode & 0o007 != 0 ==> r is Err,
        is_file && 1 <= length <= 4_096 && mode & 0o077 == 0 ==> r is Ok,
        r == Err::<(), SecretFileError>(SecretFileError::InvalidSize) <==> !is_file || length == 0 || length
            > 4_096,
{
    assert(mode & 0o077 == 0 <==> mode & 0o070 == 0 && mode & 0o007 == 0) by (bit_vector);
}

/// What was read is not too long, and what is written is neither too long nor
/// empty.
pub proof fn law_secrets_are_short(
    bytes: &[u8],
    read: Result<(), SecretFileError>,
    written: Result<(), SecretFileError>,
)
    requires
        call_ensures(check_read, (bytes,), read),
        call_ensures(check_written, (bytes,), written),
    ensures
        read is Ok <==> bytes@.len() <= 4_096,
        written is Ok <==> 1 <= bytes@.len() <= 4_096,
        read is Err ==> read == Err::<(), SecretFileError>(SecretFileError::InvalidSize),
        written is Err ==> written == Err::<(), SecretFileError>(SecretFileError::InvalidSize),
{
}

/// What is written first stands beside the file that it is moved to, under
/// another name, which does not show without asking.
pub proof fn law_secrets_are_written_beside_their_file(name: &str, r: String)
    requires
        call_ensures(temporary_name, (Some(name),), r),
    ensures
        r@.len() == name@.len() + 5,
        r@[0] == '.',
        r@ != name@,
        forall|i: int| 0 <= i < name@.len() ==> r@[i + 1] == #[trigger] name@[i],
        r@.last() == 'p' && r@[(name@.len() + 1) as int] == '.',
{
    reveal_strlit(".");
    reveal_strlit(".tmp");
}

} // verus!
