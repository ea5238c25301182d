//! Where the OpenRouter API key comes from.

use vstd::prelude::*;
use vstd::slice::slice_to_vec;
use vstd::utf8::encode_utf8;

use crate::text::{opt_str, opt_text, same_text};

verus! {

/// Whether credentials can be read from a file on this platform.
#[derive(Debug, Clone, Copy, PartialEq, Eq)]
pub enum FileCredentialPlatform {
    Unix,
    Unsupported,
}

/// The value of an environment variable.
#[derive(PartialEq, Eq)]
pub enum EnvironmentValue {
    Unset,
    Text(String),
    /// Set to something that is no Unicode text.
    Invalid,
}

/// The credentials of an auth file.
pub struct AuthFile {
    pub openrouter: Option<OpenRouterAuth>,
}

/// The OpenRouter credentials of an auth file.
pub struct OpenRouterAuth {
    pub credential_type: String,
    pub api_key: Option<String>,
}

/// Why an auth file could not be read.
#[derive(Debug, Clone, Copy, PartialEq, Eq)]
pub enum ReadFailure {
    NotFound,
    Other,
}

/// The path as a sequence of bytes, where there is one.
pub open spec fn opt_path(path: Option<&[u8]>) -> Option<Seq<u8>> {
    match path {
        Some(path) => Some(path@),
        None => None,
    }
}

/// `path` followed by the relative path `tail`; a separator stands between them unless `path` ends
/// with one.
pub open spec fn joined_path(path: Seq<u8>, tail: Seq<char>) -> Seq<u8> {
    if path.len() > 0 && path.last() != 47 {
        path.push(47) + encode_utf8(tail)
    } else {
        path + encode_utf8(tail)
    }
}

/// The path of the auth file: under an absolute configuration directory, else under the home
/// directory.
pub open spec fn auth_path(
    xdg_config_home: Option<Seq<u8>>,
    home: Option<Seq<u8>>,
    platform: FileCredentialPlatform,
) -> Option<Seq<u8>> {
    if !(platform is Unix) {
        None
    } else if xdg_config_home is Some && xdg_config_home->0.len() > 0 && xdg_config_home->0[0]
        == 47 {
        Some(joined_path(xdg_config_home->0, "nano/auth.json"@))
    } else if home is Some && home->0.len() > 0 {
        Some(joined_path(home->0, ".config/nano/auth.json"@))
    } else {
        None
    }
}

/// The key of an auth file, or why it has none.
pub open spec fn key_of_file(file: Option<AuthFile>) -> Result<Seq<char>, Seq<char>> {
    match file {
        None => Err("the OpenRouter auth file is malformed"@),
        Some(file) => match file.openrouter {
            None => Err("the OpenRouter auth file contains unsupported credentials"@),
            Some(auth) => if auth.credential_type@ != "api"@ {
                Err("the OpenRouter auth file contains unsupported credentials"@)
            } else {
                match opt_text(auth.api_key) {
                    None => Err("the OpenRouter auth file contains an empty API key"@),
                    Some(key) => if key.len() == 0 {
                        Err("the OpenRouter auth file contains an empty API key"@)
                    } else {
                        Ok(key)
                    },
                }
            },
        },
    }
}

/// The key that reading the auth file gives, or why it gives none.
pub open spec fn key_of_reply(reply: Result<Option<AuthFile>, ReadFailure>) -> Result<
    Seq<char>,
    Seq<char>,
> {
    match reply {
        Ok(file) => key_of_file(file),
        Err(ReadFailure::NotFound) => Err(
            "no OpenRouter API key found in the environment or auth file"@,
        ),
        Err(ReadFailure::Other) => Err("unable to read the OpenRouter auth file"@),
    }
}

/// Why there is no key where the environment has none and no auth file can be named.
pub open spec fn no_auth_path(platform: FileCredentialPlatform) -> Seq<char> {
    match platform {
        FileCredentialPlatform::Unix =>
        "no OpenRouter API key found; no supported auth file path is configured"@,
        FileCredentialPlatform::Unsupported =>
        "no OpenRouter API key found; file credentials are unsupported on this platform"@,
    }
}

/// The characters of a key or of an error.
pub open spec fn key_result(r: Result<String, String>) -> Result<Seq<char>, Seq<char>> {
    match r {
        Ok(key) => Ok(key@),
        Err(detail) => Err(detail@),
    }
}

/// The text of an environment value, where it has one.
pub open spec fn environment_key(environment: EnvironmentValue) -> Option<Seq<char>> {
    match environment {
        EnvironmentValue::Text(key) => Some(key@),
        _ => None,
    }
}

/// Whether the environment gives a key: an empty one does not count.
pub open spec fn has_key(environment_api_key: Option<Seq<char>>) -> bool {
    environment_api_key is Some && environment_api_key->0.len() > 0
}

/// `r` is what resolving gives: a non-empty key of the environment, else what `read_file` finds at
/// the auth path, else why there is no such path.
pub open spec fn key_resolution<ReadFile>(
    environment_api_key: Option<Seq<char>>,
    path: Option<Seq<u8>>,
    platform: FileCredentialPlatform,
    read_file: ReadFile,
    r: Result<Seq<char>, Seq<char>>,
) -> bool where ReadFile: FnOnce(&[u8]) -> Result<Option<AuthFile>, ReadFailure> {
    if has_key(environment_api_key) {
        r == Ok::<Seq<char>, Seq<char>>(environment_api_key->0)
    } else if path is None {
        r == Err::<Seq<char>, Seq<char>>(no_auth_path(platform))
    } else {
        exists|opened: &[u8], reply: Result<Option<AuthFile>, ReadFailure>|
            {
                &&& opened@ == path->0
                &&& #[trigger] call_ensures(read_file, (opened,), reply)
                &&& r == key_of_reply(reply)
            }
    }
}

/// The errors for an auth file that gives no key.
pub open spec fn is_file_fault(detail: Seq<char>) -> bool {
    ||| detail == "the OpenRouter auth file is malformed"@
    ||| detail == "the OpenRouter auth file contains unsupported credentials"@
    ||| detail == "the OpenRouter auth file contains an empty API key"@
    ||| detail == "no OpenRouter API key found in the environment or auth file"@
    ||| detail == "unable to read the OpenRouter auth file"@
}

/// Whatever an auth file holds, an error says one of five fixed things, and so tells nothing of the
/// file's contents.
pub proof fn lemma_file_errors_hide_contents(reply: Result<Option<AuthFile>, ReadFailure>)
    requires
        key_of_reply(reply) is Err,
    ensures
        is_file_fault(key_of_reply(reply)->Err_0),
{
}

/// A key that is resolved is never empty.
pub proof fn lemma_resolved_key_is_not_empty(reply: Result<Option<AuthFile>, ReadFailure>)
    requires
        key_of_reply(reply) is Ok,
    ensures
        key_of_reply(reply)->Ok_0.len() > 0,
{
}

fn join_path(path: &[u8], tail: &str) -> (r: Vec<u8>)
    ensures
        r@ == joined_path(path@, tail@),
{
    let mut joined = slice_to_vec(path);
    if path.len() > 0 && path[path.len() - 1] != 47 {
        joined.push(47);
    }
    let mut tail_bytes = slice_to_vec(tail.as_bytes());
    joined.append(&mut tail_bytes);
    joined
}

/// The path of the auth file, where there can be one.
pub fn auth_file_path(
    xdg_config_home: Option<&[u8]>,
    home: Option<&[u8]>,
    file_credential_platform: FileCredentialPlatform,
) -> (path: Option<Vec<u8>>)
    ensures
        match path {
            Some(path) => auth_path(
                opt_path(xdg_config_home),
                opt_path(home),
                file_credential_platform,
            ) == Some(path@),
            None => auth_path(opt_path(xdg_config_home), opt_path(home), file_credential_platform)
                is None,
        },
{
    match file_credential_platform {
        FileCredentialPlatform::Unsupported => {
            return None;
        },
        FileCredentialPlatform::Unix => {},
    }
    if let Some(path) = xdg_config_home {
        if path.len() > 0 && path[0] == 47 {
            return Some(join_path(path, "nano/auth.json"));
        }
    }
    if let Some(path) = home {
        if path.len() > 0 {
            return Some(join_path(path, ".config/nano/auth.json"));
        }
    }
    None
}

/// The key in an auth file; `file` is the decoded file, or nothing where the file is malformed.
pub fn parse_auth_file(file: Option<AuthFile>) -> (r: Result<String, String>)
    ensures
        key_result(r) == key_of_file(file),
{
    let auth_file = match file {
        Some(auth_file) => auth_file,
        None => {
            return Err("the OpenRouter auth file is malformed".to_owned());
        },
    };
    let openrouter_auth = match auth_file.openrouter {
        Some(openrouter_auth) => openrouter_auth,
        None => {
            return Err("the OpenRouter auth file contains unsupported credentials".to_owned());
        },
    };
    if !same_text(openrouter_auth.credential_type.as_str(), "api") {
        return Err("the OpenRouter auth file contains unsupported credentials".to_owned());
    }
    if let Some(api_key) = openrouter_auth.api_key {
        if api_key.as_str().unicode_len() > 0 {
            return Ok(api_key);
        }
    }
    Err("the OpenRouter auth file contains an empty API key".to_owned())
}

/// Resolve the key: a non-empty environment key wins, and then no file is read, so that nothing is
/// asked of `read_file`.
pub fn resolve_api_key_from_values<ReadFile>(
    environment_api_key: Option<&str>,
    xdg_config_home: Option<&[u8]>,
    home: Option<&[u8]>,
    file_credential_platform: FileCredentialPlatform,
    read_file: ReadFile,
) -> (r: Result<String, String>) where
    ReadFile: FnOnce(&[u8]) -> Result<Option<AuthFile>, ReadFailure>,

    requires
        !has_key(opt_str(environment_api_key)) ==> forall|path: &[u8]|
            auth_path(opt_path(xdg_config_home), opt_path(home), file_credential_platform) == Some(
                path@,
            ) ==> #[trigger] call_requires(read_file, (path,)),
    ensures
        key_resolution(
            opt_str(environment_api_key),
            auth_path(opt_path(xdg_config_home), opt_path(home), file_credential_platform),
            file_credential_platform,
            read_file,
            key_result(r),
        ),
{
    if let Some(key) = environment_api_key {
        if key.unicode_len() > 0 {
            return Ok(key.to_owned());
        }
    }
    let path = match auth_file_path(xdg_config_home, home, file_credential_platform) {
        Some(path) => path,
        None => {
            return Err(
                match file_credential_platform {
                    FileCredentialPlatform::Unix => {
                        "no OpenRouter API key found; no supported auth file path is configured".to_owned()
                    },
                    FileCredentialPlatform::Unsupported => {
                        "no OpenRouter API key found; file credentials are unsupported on this platform".to_owned()
                    },
                },
            );
        },
    };
    let reply = read_file(path.as_slice());
    match reply {
        Ok(file) => parse_auth_file(file),
        Err(ReadFailure::NotFound) => {
            Err("no OpenRouter API key found in the environment or auth file".to_owned())
        },
        Err(ReadFailure::Other) => Err("unable to read the OpenRouter auth file".to_owned()),
    }
}

/// Resolve the key from what the process sees of its environment.
pub fn resolve_api_key<ReadFile>(
    environment: EnvironmentValue,
    xdg_config_home: Option<&[u8]>,
    home: Option<&[u8]>,
    file_credential_platform: FileCredentialPlatform,
    read_file: ReadFile,
) -> (r: Result<String, String>) where
    ReadFile: FnOnce(&[u8]) -> Result<Option<AuthFile>, ReadFailure>,

    requires
        !(environment is Invalid) && !has_key(environment_key(environment)) ==> forall|
            path: &[u8],
        |
            auth_path(opt_path(xdg_config_home), opt_path(home), file_credential_platform) == Some(
                path@,
            ) ==> #[trigger] call_requires(read_file, (path,)),
    ensures
        match environment {
            EnvironmentValue::Invalid => key_result(r) == Err::<Seq<char>, Seq<char>>(
                "the OPENROUTER_API_KEY environment value is invalid"@,
            ),
            _ => key_resolution(
                environment_key(environment),
                auth_path(opt_path(xdg_config_home), opt_path(home), file_credential_platform),
                file_credential_platform,
                read_file,
                key_result(r),
            ),
        },
{
    match environment {
        EnvironmentValue::Invalid => {
            Err("the OPENROUTER_API_KEY environment value is invalid".to_owned())
        },
        EnvironmentValue::Text(key) => resolve_api_key_from_values(
            Some(key.as_str()),
            xdg_config_home,
            home,
            file_credential_platform,
            read_file,
        ),
        EnvironmentValue::Unset => resolve_api_key_from_values(
            None,
            xdg_config_home,
            home,
            file_credential_platform,
            read_file,
        ),
    }
}

} // verus!
