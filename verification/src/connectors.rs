//! The daemon's built-in connectors and the rules for their credentials.
//!
//! Credentials live only in the operating system's credential store. No message
//! made here holds any part of one.

use vstd::prelude::*;

use crate::text::{byte_len, contains_control, has_control, same_text, utf8_len};

verus! {

pub const GITHUB_ACTIONS: &'static str = "github-actions";

pub const JENKINS: &'static str = "jenkins";

pub const SONARQUBE: &'static str = "sonarqube";

pub const JIRA: &'static str = "jira";

pub const CONFLUENCE: &'static str = "confluence";

pub const SHAREPOINT: &'static str = "sharepoint";

pub const AWS: &'static str = "aws";

pub const GITHUB_DEFAULT_API_BASE: &'static str = "https://api.github.com/";

/// The longest credential that a connector may have.
pub const MAX_CONNECTOR_SECRET_BYTES: usize = 4096;

/// The connectors that the registry holds.
pub open spec fn registry() -> Seq<Seq<char>> {
    seq![GITHUB_ACTIONS@, JENKINS@, SONARQUBE@, JIRA@, CONFLUENCE@, SHAREPOINT@]
}

/// The identities of the registered connectors, in registry order.
pub fn built_in_connector_ids() -> (ids: [&'static str; 6])
    ensures
        ids@.map_values(|id: &'static str| id@) == registry(),
{
    let ids = [GITHUB_ACTIONS, JENKINS, SONARQUBE, JIRA, CONFLUENCE, SHAREPOINT];
    assert(ids@.map_values(|id: &'static str| id@) =~= registry());
    ids
}

/// Whether the registry holds a connector of this identity.
pub fn is_built_in(connector_id: &str) -> (found: bool)
    ensures
        found == registry().contains(connector_id@),
{
    let ids = built_in_connector_ids();
    let mut index: usize = 0;
    while index < 6
        invariant
            index <= 6,
            ids@.map_values(|id: &'static str| id@) == registry(),
            forall|i: int| 0 <= i < index ==> registry()[i] != connector_id@,
        decreases 6 - index,
    {
        assert(registry()[index as int] == ids@[index as int]@);
        if same_text(ids[index], connector_id) {
            return true;
        }
        index = index + 1;
    }
    false
}

/// Why a connector credential cannot be used. No message quotes it.
#[derive(Clone, Copy, Debug, PartialEq, Eq, Structural)]
pub enum ConnectorSecretError {
    InvalidSecret,
    Unavailable,
    Denied,
}

/// What the credential store itself reports.
#[derive(Clone, Copy, Debug, PartialEq, Eq, Structural)]
pub enum SecretBackendError {
    Unavailable,
    Denied,
}

pub open spec fn secret_error_text(error: ConnectorSecretError) -> Seq<char> {
    match error {
        ConnectorSecretError::InvalidSecret => "connector credential is invalid"@,
        ConnectorSecretError::Unavailable => "the native credential store is unavailable"@,
        ConnectorSecretError::Denied => "access to the native credential store was denied"@,
    }
}

impl ConnectorSecretError {
    pub fn message(self) -> (text: &'static str)
        ensures
            text@ == secret_error_text(self),
    {
        match self {
            ConnectorSecretError::InvalidSecret => "connector credential is invalid",
            ConnectorSecretError::Unavailable => "the native credential store is unavailable",
            ConnectorSecretError::Denied => "access to the native credential store was denied",
        }
    }

    /// The connector's error for an error of the credential store.
    pub fn from_backend(error: SecretBackendError) -> (mapped: ConnectorSecretError)
        ensures
            mapped == match error {
                SecretBackendError::Unavailable => ConnectorSecretError::Unavailable,
                SecretBackendError::Denied => ConnectorSecretError::Denied,
            },
    {
        match error {
            SecretBackendError::Unavailable => ConnectorSecretError::Unavailable,
            SecretBackendError::Denied => ConnectorSecretError::Denied,
        }
    }
}

/// A credential is not empty, not too long, and holds no control characters.
pub open spec fn is_valid_secret(secret: Seq<char>) -> bool {
    &&& secret.len() > 0
    &&& utf8_len(secret) <= MAX_CONNECTOR_SECRET_BYTES
    &&& !has_control(secret)
}

pub fn valid_connector_secret(secret: &str) -> (valid: bool)
    ensures
        valid == is_valid_secret(secret@),
{
    !secret.is_empty() && byte_len(secret) <= MAX_CONNECTOR_SECRET_BYTES && !contains_control(
        secret,
    )
}

/// Whether a new credential may be stored. An invalid one never reaches the
/// credential store.
pub fn check_new_credential(secret: &str) -> (result: Result<(), ConnectorSecretError>)
    ensures
        result == (if is_valid_secret(secret@) {
            Ok::<(), ConnectorSecretError>(())
        } else {
            Err::<(), ConnectorSecretError>(ConnectorSecretError::InvalidSecret)
        }),
{
    if valid_connector_secret(secret) {
        Ok(())
    } else {
        Err(ConnectorSecretError::InvalidSecret)
    }
}

/// What the credential store answered, as text.
pub open spec fn answer_text<E>(answer: Result<Option<String>, E>) -> Result<Option<Seq<char>>, E> {
    match answer {
        Ok(Some(secret)) => Ok(Some(secret@)),
        Ok(None) => Ok(None),
        Err(error) => Err(error),
    }
}

/// What a connector gets for what the credential store answered.
pub open spec fn judged(stored: Result<Option<Seq<char>>, SecretBackendError>) -> Result<
    Option<Seq<char>>,
    ConnectorSecretError,
> {
    match stored {
        Ok(Some(secret)) => if is_valid_secret(secret) {
            Ok(Some(secret))
        } else {
            Err(ConnectorSecretError::InvalidSecret)
        },
        Ok(None) => Ok(None),
        Err(SecretBackendError::Unavailable) => Err(ConnectorSecretError::Unavailable),
        Err(SecretBackendError::Denied) => Err(ConnectorSecretError::Denied),
    }
}

/// Judges what the credential store returned for a connector.
pub fn loaded_credential(stored: Result<Option<String>, SecretBackendError>) -> (result: Result<
    Option<String>,
    ConnectorSecretError,
>)
    ensures
        answer_text(result) == judged(answer_text(stored)),
{
    match stored {
        Ok(Some(secret)) => {
            if valid_connector_secret(secret.as_str()) {
                Ok(Some(secret))
            } else {
                Err(ConnectorSecretError::InvalidSecret)
            }
        },
        Ok(None) => Ok(None),
        Err(error) => Err(ConnectorSecretError::from_backend(error)),
    }
}

/// The credentials in the store after a new one was handed in for `id`.
pub open spec fn after_storing(
    secrets: Map<Seq<char>, Seq<char>>,
    id: Seq<char>,
    secret: Seq<char>,
) -> Map<Seq<char>, Seq<char>> {
    if is_valid_secret(secret) {
        secrets.insert(id, secret)
    } else {
        secrets
    }
}

/// The credentials in the store after that of `id` was cleared.
pub open spec fn after_clearing(secrets: Map<Seq<char>, Seq<char>>, id: Seq<char>) -> Map<
    Seq<char>,
    Seq<char>,
> {
    secrets.remove(id)
}

/// What the store answers for `id`.
pub open spec fn kept_secret(secrets: Map<Seq<char>, Seq<char>>, id: Seq<char>) -> Result<
    Option<Seq<char>>,
    SecretBackendError,
> {
    if secrets.contains_key(id) {
        Ok(Some(secrets[id]))
    } else {
        Ok(None)
    }
}

/// A valid credential that was stored is what is loaded afterwards, until it is
/// cleared; then there is none, and clearing again changes nothing. An invalid
/// one is not stored. The credentials of other connectors are as before
/// throughout.
pub proof fn law_credentials_come_back(
    secrets: Map<Seq<char>, Seq<char>>,
    id: Seq<char>,
    other: Seq<char>,
    secret: Seq<char>,
)
    requires
        other != id,
    ensures
        is_valid_secret(secret) ==> judged(kept_secret(after_storing(secrets, id, secret), id))
            == Ok::<_, ConnectorSecretError>(Some(secret)),
        !is_valid_secret(secret) ==> after_storing(secrets, id, secret) == secrets,
        kept_secret(after_storing(secrets, id, secret), other) == kept_secret(secrets, other),
        judged(kept_secret(after_clearing(secrets, id), id)) == Ok::<_, ConnectorSecretError>(
            None::<Seq<char>>,
        ),
        after_clearing(after_clearing(secrets, id), id) == after_clearing(secrets, id),
        kept_secret(after_clearing(secrets, id), other) == kept_secret(secrets, other),
{
    let once = after_clearing(secrets, id);
    assert(after_clearing(once, id) =~= once);
}

// Records

/// The stored configuration of a connector.
pub struct ConnectorRecord {
    pub connector_id: String,
    pub enabled: bool,
    pub base_url: Option<String>,
    /// How its last test ended, in the store's word.
    pub last_test_status: Option<String>,
    pub last_test_at_ms: Option<u64>,
}

/// The record of `id` among `records`: the first with that identity.
pub open spec fn is_record_of(records: Seq<ConnectorRecord>, id: Seq<char>, index: int) -> bool {
    &&& 0 <= index < records.len()
    &&& records[index].connector_id@ == id
    &&& forall|i: int| 0 <= i < index ==> (#[trigger] records[i]).connector_id@ != id
}

/// Finds the stored record of a connector.
pub fn find_connector_record(records: &Vec<ConnectorRecord>, id: &str) -> (found: Option<usize>)
    ensures
        match found {
            Some(index) => is_record_of(records@, id@, index as int),
            None => forall|i: int|
                0 <= i < records@.len() ==> (#[trigger] records@[i]).connector_id@ != id@,
        },
{
    let mut index: usize = 0;
    while index < records.len()
        invariant
            index <= records@.len(),
            forall|i: int| 0 <= i < index ==> (#[trigger] records@[i]).connector_id@ != id@,
        decreases records@.len() - index,
    {
        if same_text(records[index].connector_id.as_str(), id) {
            return Some(index);
        }
        index = index + 1;
    }
    None
}

/// The API base that a GitHub connector talks to.
pub fn github_api_base<'a>(base_url: Option<&'a str>) -> (base: &'a str)
    ensures
        base@ == (match base_url {
            Some(url) => url@,
            None => GITHUB_DEFAULT_API_BASE@,
        }),
{
    match base_url {
        Some(url) => url,
        None => GITHUB_DEFAULT_API_BASE,
    }
}

/// The registry holds these six and no other.
pub proof fn law_six_connectors_are_built_in(id: Seq<char>)
    ensures
        registry().contains(id) <==> id == "github-actions"@ || id == "jenkins"@ || id
            == "sonarqube"@ || id == "jira"@ || id == "confluence"@ || id == "sharepoint"@,
{
    assert(registry()[0] == "github-actions"@);
    assert(registry()[1] == "jenkins"@);
    assert(registry()[2] == "sonarqube"@);
    assert(registry()[3] == "jira"@);
    assert(registry()[4] == "confluence"@);
    assert(registry()[5] == "sharepoint"@);
}

/// What is loaded is what the credential store holds, if it is valid: something
/// of at most 4096 bytes without control characters. That the store is
/// unavailable or denies access is told as such, and a missing credential is
/// no error.
pub proof fn law_loaded_credentials_are_the_stored_ones(
    stored: Result<Option<Seq<char>>, SecretBackendError>,
)
    ensures
        judged(stored) is Ok ==> stored is Ok && judged(stored)->Ok_0 == stored->Ok_0,
        judged(stored) == Ok::<Option<Seq<char>>, ConnectorSecretError>(None) <==> stored == Ok::<
            Option<Seq<char>>,
            SecretBackendError,
        >(None),
        judged(stored) == Err::<Option<Seq<char>>, ConnectorSecretError>(
            ConnectorSecretError::Unavailable,
        ) <==> stored == Err::<Option<Seq<char>>, SecretBackendError>(
            SecretBackendError::Unavailable,
        ),
        judged(stored) == Err::<Option<Seq<char>>, ConnectorSecretError>(
            ConnectorSecretError::Denied,
        ) <==> stored == Err::<Option<Seq<char>>, SecretBackendError>(SecretBackendError::Denied),
        stored matches Ok(Some(secret)) ==> (judged(stored) is Ok <==> 0 < secret.len() && utf8_len(
            secret,
        ) <= 4096 && !has_control(secret)),
{
}

/// A caller can tell from the words what is wrong with a credential.
pub proof fn law_credential_errors_have_their_own_words(error: ConnectorSecretError)
    ensures
        secret_error_text(error) == "connector credential is invalid"@ <==> error
            == ConnectorSecretError::InvalidSecret,
        secret_error_text(error) == "the native credential store is unavailable"@ <==> error
            == ConnectorSecretError::Unavailable,
        secret_error_text(error) == "access to the native credential store was denied"@ <==> error
            == ConnectorSecretError::Denied,
{
    reveal_strlit("connector credential is invalid");
    reveal_strlit("the native credential store is unavailable");
    reveal_strlit("access to the native credential store was denied");
    assert("connector credential is invalid"@[0] == 'c');
    assert("the native credential store is unavailable"@[0] == 't');
    assert("access to the native credential store was denied"@[0] == 'a');
}

} // verus!
