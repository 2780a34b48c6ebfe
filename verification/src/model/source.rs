//! Where models come from: providers, credentials, and model sources with the URLs
//! and identifiers derived from them.
use vstd::prelude::*;
use crate::encoding::{base64_encode, base64_text};
use crate::text::{self, lowercase};
use vstd::utf8::encode_utf8;

verus! {

/// Model provider types
#[derive(Debug, Clone, Copy, PartialEq, Eq, Structural)]
pub enum Provider {
    /// Hugging Face model hub
    HuggingFace,
    /// Unsloth model provider
    Unsloth,
    /// Remote endpoint (custom URL)
    Remote,
    /// Local file system
    Local,
}

pub open spec fn provider_base_url(p: Provider) -> Option<Seq<char>> {
    match p {
        Provider::HuggingFace => Some("https://huggingface.co"@),
        Provider::Unsloth => Some("https://unsloth.ai"@),
        Provider::Remote | Provider::Local => None,
    }
}

pub open spec fn provider_name(p: Provider) -> Seq<char> {
    match p {
        Provider::HuggingFace => "huggingface"@,
        Provider::Unsloth => "unsloth"@,
        Provider::Remote => "remote"@,
        Provider::Local => "local"@,
    }
}

/// The provider a lowercase name denotes.
pub open spec fn provider_from_lower(s: Seq<char>) -> Option<Provider> {
    if s == "huggingface"@ || s == "hf"@ {
        Some(Provider::HuggingFace)
    } else if s == "unsloth"@ {
        Some(Provider::Unsloth)
    } else if s == "remote"@ {
        Some(Provider::Remote)
    } else if s == "local"@ {
        Some(Provider::Local)
    } else {
        None
    }
}

impl Provider {
    /// The default base URL for this provider.
    pub fn base_url(&self) -> (r: Option<&'static str>)
        ensures
            match r {
                Some(s) => provider_base_url(*self) == Some(s@),
                None => provider_base_url(*self) is None,
            },
    {
        match self {
            Provider::HuggingFace => Some("https://huggingface.co"),
            Provider::Unsloth => Some("https://unsloth.ai"),
            Provider::Remote | Provider::Local => None,
        }
    }

    /// Whether this provider requires authentication: all but local files.
    pub fn requires_auth(&self) -> (r: bool)
        ensures
            r == (*self != Provider::Local),
    {
        match self {
            Provider::HuggingFace | Provider::Unsloth | Provider::Remote => true,
            Provider::Local => false,
        }
    }

    /// The provider's display name.
    pub fn to_string(&self) -> (r: String)
        ensures
            r@ == provider_name(*self),
    {
        match self {
            Provider::HuggingFace => text::owned("huggingface"),
            Provider::Unsloth => text::owned("unsloth"),
            Provider::Remote => text::owned("remote"),
            Provider::Local => text::owned("local"),
        }
    }

    /// The provider a name already in lowercase denotes.
    pub fn from_lowercase(s: &str) -> (r: Option<Provider>)
        ensures
            r == provider_from_lower(s@),
    {
        if text::str_eq(s, "huggingface") || text::str_eq(s, "hf") {
            Some(Provider::HuggingFace)
        } else if text::str_eq(s, "unsloth") {
            Some(Provider::Unsloth)
        } else if text::str_eq(s, "remote") {
            Some(Provider::Remote)
        } else if text::str_eq(s, "local") {
            Some(Provider::Local)
        } else {
            None
        }
    }

    /// Parses a provider name, case-insensitively; an unknown name gives the message
    /// `Unknown provider: <name>`.
    pub fn from_str(s: &str) -> (r: Result<Provider, String>)
        ensures
            match r {
                Ok(p) => provider_from_lower(lowercase(s@)) == Some(p),
                Err(m) => provider_from_lower(lowercase(s@)) is None && m@ == "Unknown provider: "@
                    + s@,
            },
    {
        let lower = text::to_lowercase(s);
        match Self::from_lowercase(lower.as_str()) {
            Some(p) => Ok(p),
            None => Err(text::concat2("Unknown provider: ", s)),
        }
    }
}

impl std::str::FromStr for Provider {
    type Err = String;

    fn from_str(s: &str) -> Result<Provider, String> {
        Provider::from_str(s)
    }
}

/// Authentication credentials for model sources
#[derive(Debug, Clone, PartialEq)]
pub enum Auth {
    /// API key authentication
    ApiKey(String),
    /// Bearer token authentication
    BearerToken(String),
    /// Basic authentication (username, password)
    Basic { username: String, password: String },
    /// No authentication
    NoAuth,
}

/// Model of credentials.
pub enum AuthModel {
    ApiKey(Seq<char>),
    BearerToken(Seq<char>),
    Basic { username: Seq<char>, password: Seq<char> },
    NoAuth,
}

impl View for Auth {
    type V = AuthModel;

    open spec fn view(&self) -> AuthModel {
        match self {
            Auth::ApiKey(k) => AuthModel::ApiKey(k@),
            Auth::BearerToken(t) => AuthModel::BearerToken(t@),
            Auth::Basic { username, password } => AuthModel::Basic {
                username: username@,
                password: password@,
            },
            Auth::NoAuth => AuthModel::NoAuth,
        }
    }
}

/// The `Authorization` header value for credentials.
pub open spec fn header_value(a: Auth) -> Option<Seq<char>> {
    match a {
        Auth::ApiKey(k) => Some("Bearer "@ + k@),
        Auth::BearerToken(t) => Some("Bearer "@ + t@),
        Auth::Basic { username, password } => Some(
            "Basic "@ + base64_text(encode_utf8(username@ + ":"@ + password@)),
        ),
        Auth::NoAuth => None,
    }
}

impl Auth {
    /// A copy of the credentials.
    pub fn duplicate(&self) -> (r: Auth)
        ensures
            r@ == self@,
    {
        match self {
            Auth::ApiKey(k) => Auth::ApiKey(k.clone()),
            Auth::BearerToken(t) => Auth::BearerToken(t.clone()),
            Auth::Basic { username, password } => Auth::Basic {
                username: username.clone(),
                password: password.clone(),
            },
            Auth::NoAuth => Auth::NoAuth,
        }
    }

    /// Whether credentials are provided.
    pub fn is_authenticated(&self) -> (r: bool)
        ensures
            r == !(*self is NoAuth),
    {
        match self {
            Auth::NoAuth => false,
            _ => true,
        }
    }

    /// The authorization header value: `Bearer <key>` for a key or token, `Basic` and the
    /// base64 of `<user>:<password>` for basic credentials.
    pub fn to_header_value(&self) -> (r: Option<String>)
        ensures
            match r {
                Some(s) => header_value(*self) == Some(s@),
                None => header_value(*self) is None,
            },
    {
        match self {
            Auth::ApiKey(key) => Some(text::concat2("Bearer ", key.as_str())),
            Auth::BearerToken(token) => Some(text::concat2("Bearer ", token.as_str())),
            Auth::Basic { username, password } => {
                let credentials = text::concat3(username.as_str(), ":", password.as_str());
                let encoded = base64_encode(credentials.as_str().as_bytes());
                Some(text::concat2("Basic ", encoded.as_str()))
            },
            Auth::NoAuth => None,
        }
    }
}

/// Model source information
#[derive(Debug, Clone, PartialEq)]
pub struct ModelSource {
    /// Provider type
    pub provider: Provider,
    /// Repository or model identifier
    pub repository: String,
    /// Model version or tag
    pub version: Option<String>,
    /// Custom URL for remote providers
    pub url: Option<String>,
}

pub open spec fn opt_view(o: Option<String>) -> Option<Seq<char>> {
    match o {
        Some(s) => Some(s@),
        None => None,
    }
}

/// The download URL of a source.
pub open spec fn download_url_of(provider: Provider, repository: Seq<char>, version: Option<Seq<char>>, url: Option<Seq<char>>) -> Option<Seq<char>> {
    match provider {
        Provider::HuggingFace => Some(
            "https://huggingface.co"@ + "/"@ + repository + "/resolve/"@ + match version {
                Some(v) => v,
                None => "main"@,
            },
        ),
        Provider::Unsloth => Some("https://unsloth.ai"@ + "/models/"@ + repository),
        Provider::Remote => url,
        Provider::Local => None,
    }
}

/// The unique identifier of a source.
pub open spec fn identifier_of(provider: Provider, repository: Seq<char>, version: Option<Seq<char>>, url: Option<Seq<char>>) -> Seq<char> {
    match provider {
        Provider::HuggingFace | Provider::Unsloth => match version {
            Some(v) => repository + ":"@ + v,
            None => repository,
        },
        Provider::Remote => match url {
            Some(u) => u,
            None => "remote"@,
        },
        Provider::Local => repository,
    }
}

/// The display form of a source.
pub open spec fn display_of(provider: Provider, repository: Seq<char>, version: Option<Seq<char>>, url: Option<Seq<char>>) -> Seq<char> {
    match provider {
        Provider::HuggingFace | Provider::Unsloth => provider_name(provider) + "/"@ + repository
            + match version {
            Some(v) => ":"@ + v,
            None => Seq::empty(),
        },
        Provider::Remote => match url {
            Some(u) => "remote:"@ + u,
            None => "remote"@,
        },
        Provider::Local => "local:"@ + repository,
    }
}

impl ModelSource {
    /// A source from a provider and repository, without version or URL.
    pub fn new(provider: Provider, repository: &str) -> (r: ModelSource)
        ensures
            r.provider == provider,
            r.repository@ == repository@,
            r.version is None,
            r.url is None,
    {
        ModelSource { provider, repository: text::owned(repository), version: None, url: None }
    }

    /// A Hugging Face source.
    pub fn huggingface(repository: &str) -> (r: ModelSource)
        ensures
            r.provider == Provider::HuggingFace,
            r.repository@ == repository@,
            r.version is None,
            r.url is None,
    {
        Self::new(Provider::HuggingFace, repository)
    }

    /// An Unsloth source.
    pub fn unsloth(repository: &str) -> (r: ModelSource)
        ensures
            r.provider == Provider::Unsloth,
            r.repository@ == repository@,
            r.version is None,
            r.url is None,
    {
        Self::new(Provider::Unsloth, repository)
    }

    /// A remote source at a URL, with an empty repository.
    pub fn remote(url: &str) -> (r: ModelSource)
        ensures
            r.provider == Provider::Remote,
            r.repository@ == Seq::<char>::empty(),
            r.version is None,
            opt_view(r.url) == Some(url@),
    {
        ModelSource {
            provider: Provider::Remote,
            repository: String::new(),
            version: None,
            url: Some(text::owned(url)),
        }
    }

    /// A local source at a path.
    pub fn local(path: &str) -> (r: ModelSource)
        ensures
            r.provider == Provider::Local,
            r.repository@ == path@,
            r.version is None,
            r.url is None,
    {
        ModelSource { provider: Provider::Local, repository: text::owned(path), version: None, url: None }
    }

    /// The same source with a version.
    pub fn with_version(self, version: &str) -> (r: ModelSource)
        ensures
            r.provider == self.provider,
            r.repository == self.repository,
            opt_view(r.version) == Some(version@),
            r.url == self.url,
    {
        ModelSource { version: Some(text::owned(version)), ..self }
    }

    /// The same source with a URL.
    pub fn with_url(self, url: &str) -> (r: ModelSource)
        ensures
            r.provider == self.provider,
            r.repository == self.repository,
            r.version == self.version,
            opt_view(r.url) == Some(url@),
    {
        ModelSource { url: Some(text::owned(url)), ..self }
    }

    /// The full URL for downloading the model.
    pub fn download_url(&self) -> (r: Option<String>)
        ensures
            opt_view(r) == download_url_of(
                self.provider,
                self.repository@,
                opt_view(self.version),
                opt_view(self.url),
            ),
    {
        match self.provider {
            Provider::HuggingFace => {
                let base = "https://huggingface.co";
                let version: &str = match &self.version {
                    Some(v) => v.as_str(),
                    None => "main",
                };
                let mut s = text::concat3(base, "/", self.repository.as_str());
                s.append("/resolve/");
                s.append(version);
                Some(s)
            },
            Provider::Unsloth => Some(
                text::concat3("https://unsloth.ai", "/models/", self.repository.as_str()),
            ),
            Provider::Remote => match &self.url {
                Some(u) => Some(u.clone()),
                None => None,
            },
            Provider::Local => None,
        }
    }

    /// A unique identifier for this source: `repo[:version]`, the URL, or the path.
    pub fn identifier(&self) -> (r: String)
        ensures
            r@ == identifier_of(
                self.provider,
                self.repository@,
                opt_view(self.version),
                opt_view(self.url),
            ),
    {
        match self.provider {
            Provider::HuggingFace | Provider::Unsloth => match &self.version {
                Some(v) => text::concat3(self.repository.as_str(), ":", v.as_str()),
                None => self.repository.clone(),
            },
            Provider::Remote => match &self.url {
                Some(u) => u.clone(),
                None => text::owned("remote"),
            },
            Provider::Local => self.repository.clone(),
        }
    }

    /// The display form: `provider/repo[:version]`, `remote[:url]`, or `local:path`.
    pub fn to_string(&self) -> (r: String)
        ensures
            r@ == display_of(
                self.provider,
                self.repository@,
                opt_view(self.version),
                opt_view(self.url),
            ),
    {
        match self.provider {
            Provider::HuggingFace | Provider::Unsloth => {
                let name = self.provider.to_string();
                let mut s = text::concat3(name.as_str(), "/", self.repository.as_str());
                match &self.version {
                    Some(v) => {
                        s.append(":");
                        s.append(v.as_str());
                    },
                    None => {},
                }
                s
            },
            Provider::Remote => match &self.url {
                Some(u) => text::concat2("remote:", u.as_str()),
                None => text::owned("remote"),
            },
            Provider::Local => text::concat2("local:", self.repository.as_str()),
        }
    }
}

} // verus!
