//! Session lifecycle decisions: the advertised authentication methods and
//! the outcome of an authentication request.
use vstd::prelude::*;
use crate::edits::string_eq;
use crate::session::is_custom_provider;
use crate::text::{chars_of, push_all, string_of};

verus! {

/// An authentication method offered to the client.
pub struct AuthMethodInfo {
    pub id: String,
    pub name: String,
    pub description: String,
}

/// The authentication methods offered: ChatGPT sign-in and an API key,
/// plus the configured provider when it is a custom one.
pub fn auth_methods(provider_id: &str, provider_name: &str) -> (r: Vec<AuthMethodInfo>)
    ensures
        r@.len() == (if provider_id@ != "openai"@ { 3int } else { 2int }),
        r@[0].id@ == "chatgpt"@ && r@[0].name@ == "ChatGPT"@ && r@[0].description@
            == "Sign in with ChatGPT to use your plan"@,
        r@[1].id@ == "apikey"@ && r@[1].name@ == "OpenAI API Key"@ && r@[1].description@
            == "Use OPENAI_API_KEY from environment or auth.json"@,
        provider_id@ != "openai"@ ==> r@[2].id@ == provider_id@ && r@[2].name@ == provider_name@
            && r@[2].description@ == "Authenticate with custom provider: "@ + provider_id@,
{
    let mut v: Vec<AuthMethodInfo> = Vec::new();
    v.push(AuthMethodInfo {
        id: "chatgpt".to_owned(),
        name: "ChatGPT".to_owned(),
        description: "Sign in with ChatGPT to use your plan".to_owned(),
    });
    v.push(AuthMethodInfo {
        id: "apikey".to_owned(),
        name: "OpenAI API Key".to_owned(),
        description: "Use OPENAI_API_KEY from environment or auth.json".to_owned(),
    });
    if is_custom_provider(provider_id) {
        let mut d = chars_of("Authenticate with custom provider: ");
        push_all(&mut d, &chars_of(provider_id));
        v.push(AuthMethodInfo {
            id: provider_id.to_owned(),
            name: provider_name.to_owned(),
            description: string_of(&d),
        });
    }
    v
}

/// The outcome of an authentication request.
pub enum AuthDecision {
    Accepted,
    /// Credentials are missing or of the wrong kind.
    AuthRequired(String),
    /// The request itself is wrong.
    InvalidParams(String),
}

/// The meaning of an `AuthDecision`: accepted, or an error kind with its message.
pub enum AuthVerdict {
    Accepted,
    AuthRequired(Seq<char>),
    InvalidParams(Seq<char>),
}

pub open spec fn verdict_of(d: AuthDecision) -> AuthVerdict {
    match d {
        AuthDecision::Accepted => AuthVerdict::Accepted,
        AuthDecision::AuthRequired(m) => AuthVerdict::AuthRequired(m@),
        AuthDecision::InvalidParams(m) => AuthVerdict::InvalidParams(m@),
    }
}

/// The verdict on authenticating with `method`, given what the reloaded
/// credentials hold and how the provider is configured.
pub open spec fn auth_verdict(
    method: Seq<char>,
    auth_loaded: bool,
    chatgpt_auth: bool,
    provider_id: Seq<char>,
    provider_configured: bool,
) -> AuthVerdict {
    if method == "apikey"@ {
        if auth_loaded {
            AuthVerdict::Accepted
        } else {
            AuthVerdict::AuthRequired("Failed to load API key auth"@)
        }
    } else if method == "chatgpt"@ {
        if auth_loaded && chatgpt_auth {
            AuthVerdict::Accepted
        } else {
            AuthVerdict::AuthRequired("ChatGPT login not found. Run `codex login` to connect your plan."@)
        }
    } else if method == "custom_provider"@ {
        if provider_id == "openai"@ {
            AuthVerdict::InvalidParams("Custom provider auth method is only available for custom providers"@)
        } else if !provider_configured {
            AuthVerdict::AuthRequired("Custom provider '"@ + provider_id + "' is not configured in model_providers"@)
        } else if auth_loaded {
            AuthVerdict::Accepted
        } else {
            AuthVerdict::AuthRequired("Custom provider '"@ + provider_id
                + "' requires authentication. Please configure API credentials in your Codex config."@)
        }
    } else {
        AuthVerdict::InvalidParams("unknown auth method: "@ + method)
    }
}

fn concat3(a: &str, b: &str, c: &str) -> (r: String)
    ensures
        r@ == a@ + b@ + c@,
{
    let mut v = chars_of(a);
    push_all(&mut v, &chars_of(b));
    push_all(&mut v, &chars_of(c));
    string_of(&v)
}

/// Decides an authentication request; `auth_loaded` and `chatgpt_auth`
/// describe the credentials found after reloading them.
pub fn decide_authentication(
    method: &str,
    auth_loaded: bool,
    chatgpt_auth: bool,
    provider_id: &str,
    provider_configured: bool,
) -> (r: AuthDecision)
    ensures
        verdict_of(r) == auth_verdict(method@, auth_loaded, chatgpt_auth, provider_id@, provider_configured),
{
    let m = method.to_owned();
    if string_eq(&m, "apikey") {
        if auth_loaded {
            AuthDecision::Accepted
        } else {
            AuthDecision::AuthRequired("Failed to load API key auth".to_owned())
        }
    } else if string_eq(&m, "chatgpt") {
        if auth_loaded && chatgpt_auth {
            AuthDecision::Accepted
        } else {
            AuthDecision::AuthRequired(
                "ChatGPT login not found. Run `codex login` to connect your plan.".to_owned(),
            )
        }
    } else if string_eq(&m, "custom_provider") {
        if !is_custom_provider(provider_id) {
            AuthDecision::InvalidParams(
                "Custom provider auth method is only available for custom providers".to_owned(),
            )
        } else if !provider_configured {
            AuthDecision::AuthRequired(
                concat3("Custom provider '", provider_id, "' is not configured in model_providers"),
            )
        } else if auth_loaded {
            AuthDecision::Accepted
        } else {
            AuthDecision::AuthRequired(
                concat3(
                    "Custom provider '",
                    provider_id,
                    "' requires authentication. Please configure API credentials in your Codex config.",
                ),
            )
        }
    } else {
        let mut v = chars_of("unknown auth method: ");
        push_all(&mut v, &chars_of(method));
        AuthDecision::InvalidParams(string_of(&v))
    }
}

} // verus!
