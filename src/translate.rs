use vstd::prelude::*;
use crate::error::IngestError;
use crate::text::concat_str;

verus! {

/// Settings read once from the environment and handed to the flows.
#[derive(Debug, Clone)]
pub struct Config {
    /// Credential for the translation provider, if any.
    pub translation_key: Option<String>,
    /// Port to listen on, if any.
    pub port: Option<String>,
}

/// A word to translate, and the language to translate it into.
#[derive(Debug, Clone)]
pub struct TranslateQuery {
    pub word: String,
    pub target_lang: Option<String>,
}

/// A request to the translation provider.
#[derive(Debug, Clone)]
pub struct TranslateCall {
    /// Value of the `Authorization` header.
    pub auth_header: String,
    pub word: String,
    pub target_lang: String,
}

/// The translation provider's endpoint.
pub open spec fn translate_endpoint() -> Seq<char> {
    "https://api-free.deepl.com/v2/translate"@
}

/// Prefix of the provider's `Authorization` header.
pub open spec fn auth_prefix() -> Seq<char> {
    "DeepL-Auth-Key "@
}

/// The target language of a query that names none.
pub open spec fn default_target_lang() -> Seq<char> {
    "EN"@
}

/// The port of a configuration that names none.
pub open spec fn default_port() -> Seq<char> {
    "3000"@
}

/// Prefix of the listening address: every interface.
pub open spec fn listen_host() -> Seq<char> {
    "0.0.0.0:"@
}

/// The translation provider's endpoint.
pub fn translate_url() -> (r: String)
    ensures
        r@ == translate_endpoint(),
{
    String::from_str("https://api-free.deepl.com/v2/translate")
}

/// Prepares the provider request for `query`; without a credential it fails,
/// and no request is to be made.
pub fn plan_translation(config: &Config, query: TranslateQuery) -> (r: Result<
    TranslateCall,
    IngestError,
>)
    ensures
        r is Err <==> config.translation_key is None,
        r is Err ==> r->Err_0 is Configuration,
        r is Ok ==> ({
            let call = r->Ok_0;
            &&& call.auth_header@ == auth_prefix() + config.translation_key->Some_0@
            &&& call.word@ == query.word@
            &&& call.target_lang@ == match query.target_lang {
                Some(l) => l@,
                None => default_target_lang(),
            }
        }),
{
    match &config.translation_key {
        None => Err(IngestError::Configuration),
        Some(key) => {
            let auth_header = concat_str("DeepL-Auth-Key ", key.as_str());
            let target_lang = match query.target_lang {
                Some(l) => l,
                None => String::from_str("EN"),
            };
            Ok(TranslateCall { auth_header, word: query.word, target_lang })
        },
    }
}

/// The translation to report: the provider's first, or empty where it gave none.
pub fn first_translation(translations: Vec<String>) -> (r: String)
    ensures
        r@ == if translations.len() > 0 {
            translations@[0]@
        } else {
            Seq::<char>::empty()
        },
{
    if translations.len() > 0 {
        translations[0].clone()
    } else {
        String::new()
    }
}

/// The address to listen on: every interface, at the configured port or the default.
pub fn listen_address(config: &Config) -> (r: String)
    ensures
        r@ == listen_host() + match config.port {
            Some(p) => p@,
            None => default_port(),
        },
{
    match &config.port {
        Some(p) => concat_str("0.0.0.0:", p.as_str()),
        None => concat_str("0.0.0.0:", "3000"),
    }
}

} // verus!
