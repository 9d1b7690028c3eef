//! Error taxonomy shared by every subsystem of the engine.

use vstd::prelude::*;

verus! {

/// `std::io::Error`, carried unopened inside `AnvilKitError::Io`.
#[verifier::external_type_specification]
#[verifier::external_body]
pub struct ExIoError(std::io::Error);

/// Relies on the `Display` impl of `std::io::Error` for the text of an I/O
/// error; that text comes from the operating system, so nothing is stated of it.
#[verifier::external_body]
fn io_error_text(e: &std::io::Error) -> (r: String) {
    e.to_string()
}

/// The subsystem an error belongs to.
#[derive(Debug, Clone, Copy, PartialEq, Eq, Hash, Structural)]
pub enum ErrorCategory {
    Render,
    Physics,
    Asset,
    Audio,
    Input,
    Ecs,
    Window,
    Config,
    Network,
    Io,
    Serialization,
    Generic,
}

/// Display name of a category.
pub open spec fn category_label(c: ErrorCategory) -> Seq<char> {
    match c {
        ErrorCategory::Render => "渲染"@,
        ErrorCategory::Physics => "物理"@,
        ErrorCategory::Asset => "资源"@,
        ErrorCategory::Audio => "音频"@,
        ErrorCategory::Input => "输入"@,
        ErrorCategory::Ecs => "ECS"@,
        ErrorCategory::Window => "窗口"@,
        ErrorCategory::Config => "配置"@,
        ErrorCategory::Network => "网络"@,
        ErrorCategory::Io => "I/O"@,
        ErrorCategory::Serialization => "序列化"@,
        ErrorCategory::Generic => "通用"@,
    }
}

impl ErrorCategory {
    /// The display name of the category.
    pub fn to_string(&self) -> (r: String)
        ensures
            r@ == category_label(*self),
    {
        let s = match self {
            ErrorCategory::Render => "渲染",
            ErrorCategory::Physics => "物理",
            ErrorCategory::Asset => "资源",
            ErrorCategory::Audio => "音频",
            ErrorCategory::Input => "输入",
            ErrorCategory::Ecs => "ECS",
            ErrorCategory::Window => "窗口",
            ErrorCategory::Config => "配置",
            ErrorCategory::Network => "网络",
            ErrorCategory::Io => "I/O",
            ErrorCategory::Serialization => "序列化",
            ErrorCategory::Generic => "通用",
        };
        proof {
            reveal_strlit("渲染");
            reveal_strlit("物理");
            reveal_strlit("资源");
            reveal_strlit("音频");
            reveal_strlit("输入");
            reveal_strlit("ECS");
            reveal_strlit("窗口");
            reveal_strlit("配置");
            reveal_strlit("网络");
            reveal_strlit("I/O");
            reveal_strlit("序列化");
            reveal_strlit("通用");
        }
        String::from_str(s)
    }
}


/// An engine error: a category, a message, and for most kinds an optional
/// underlying cause.
#[derive(Debug)]
pub enum AnvilKitError {
    Render { message: String, source: Option<Box<AnvilKitError>> },
    Physics { message: String, source: Option<Box<AnvilKitError>> },
    Asset { message: String, path: Option<String>, source: Option<Box<AnvilKitError>> },
    Audio { message: String, source: Option<Box<AnvilKitError>> },
    Input { message: String, source: Option<Box<AnvilKitError>> },
    Ecs { message: String, source: Option<Box<AnvilKitError>> },
    Window { message: String, source: Option<Box<AnvilKitError>> },
    Config { message: String, key: Option<String>, source: Option<Box<AnvilKitError>> },
    Network { message: String, source: Option<Box<AnvilKitError>> },
    Io(std::io::Error),
    Serialization { message: String, source: Option<Box<AnvilKitError>> },
    Generic { message: String, source: Option<Box<AnvilKitError>> },
}

/// Result type of fallible engine operations.
pub type Result<T> = std::result::Result<T, AnvilKitError>;

/// Text that precedes the message when an error is displayed.
pub open spec fn display_prefix(c: ErrorCategory) -> Seq<char> {
    match c {
        ErrorCategory::Render => "渲染错误"@,
        ErrorCategory::Physics => "物理错误"@,
        ErrorCategory::Asset => "资源错误"@,
        ErrorCategory::Audio => "音频错误"@,
        ErrorCategory::Input => "输入错误"@,
        ErrorCategory::Ecs => "ECS 错误"@,
        ErrorCategory::Window => "窗口错误"@,
        ErrorCategory::Config => "配置错误"@,
        ErrorCategory::Network => "网络错误"@,
        ErrorCategory::Io => "I/O 错误"@,
        ErrorCategory::Serialization => "序列化错误"@,
        ErrorCategory::Generic => "AnvilKit 错误"@,
    }
}

impl AnvilKitError {
    pub open spec fn spec_category(&self) -> ErrorCategory {
        match self {
            AnvilKitError::Render { .. } => ErrorCategory::Render,
            AnvilKitError::Physics { .. } => ErrorCategory::Physics,
            AnvilKitError::Asset { .. } => ErrorCategory::Asset,
            AnvilKitError::Audio { .. } => ErrorCategory::Audio,
            AnvilKitError::Input { .. } => ErrorCategory::Input,
            AnvilKitError::Ecs { .. } => ErrorCategory::Ecs,
            AnvilKitError::Window { .. } => ErrorCategory::Window,
            AnvilKitError::Config { .. } => ErrorCategory::Config,
            AnvilKitError::Network { .. } => ErrorCategory::Network,
            AnvilKitError::Io(_) => ErrorCategory::Io,
            AnvilKitError::Serialization { .. } => ErrorCategory::Serialization,
            AnvilKitError::Generic { .. } => ErrorCategory::Generic,
        }
    }

    /// The message held by every kind but `Io`, whose text comes from the
    /// operating system.
    pub open spec fn spec_message(&self) -> Seq<char> {
        match self {
            AnvilKitError::Render { message, .. } => message@,
            AnvilKitError::Physics { message, .. } => message@,
            AnvilKitError::Asset { message, .. } => message@,
            AnvilKitError::Audio { message, .. } => message@,
            AnvilKitError::Input { message, .. } => message@,
            AnvilKitError::Ecs { message, .. } => message@,
            AnvilKitError::Window { message, .. } => message@,
            AnvilKitError::Config { message, .. } => message@,
            AnvilKitError::Network { message, .. } => message@,
            AnvilKitError::Io(_) => Seq::empty(),
            AnvilKitError::Serialization { message, .. } => message@,
            AnvilKitError::Generic { message, .. } => message@,
        }
    }

    /// Whether the error carries an underlying cause.
    pub open spec fn spec_has_source(&self) -> bool {
        match self {
            AnvilKitError::Render { source, .. } => source.is_some(),
            AnvilKitError::Physics { source, .. } => source.is_some(),
            AnvilKitError::Asset { source, .. } => source.is_some(),
            AnvilKitError::Audio { source, .. } => source.is_some(),
            AnvilKitError::Input { source, .. } => source.is_some(),
            AnvilKitError::Ecs { source, .. } => source.is_some(),
            AnvilKitError::Window { source, .. } => source.is_some(),
            AnvilKitError::Config { source, .. } => source.is_some(),
            AnvilKitError::Network { source, .. } => source.is_some(),
            AnvilKitError::Io(_) => false,
            AnvilKitError::Serialization { source, .. } => source.is_some(),
            AnvilKitError::Generic { source, .. } => source.is_some(),
        }
    }

    pub fn render(message: &str) -> (r: Self)
        ensures
            r is Render,
            r.spec_message() == message@,
            !r.spec_has_source(),
    {
        AnvilKitError::Render { message: String::from_str(message), source: None }
    }

    pub fn render_with_source(message: &str, source: AnvilKitError) -> (r: Self)
        ensures
            r is Render,
            r.spec_message() == message@,
            r->Render_source == Some(Box::new(source)),
    {
        AnvilKitError::Render { message: String::from_str(message), source: Some(Box::new(source)) }
    }

    pub fn physics(message: &str) -> (r: Self)
        ensures
            r is Physics,
            r.spec_message() == message@,
            !r.spec_has_source(),
    {
        AnvilKitError::Physics { message: String::from_str(message), source: None }
    }

    pub fn physics_with_source(message: &str, source: AnvilKitError) -> (r: Self)
        ensures
            r is Physics,
            r.spec_message() == message@,
            r->Physics_source == Some(Box::new(source)),
    {
        AnvilKitError::Physics { message: String::from_str(message), source: Some(Box::new(source)) }
    }

    pub fn asset(message: &str) -> (r: Self)
        ensures
            r is Asset,
            r.spec_message() == message@,
            r->Asset_path is None,
            !r.spec_has_source(),
    {
        AnvilKitError::Asset { message: String::from_str(message), path: None, source: None }
    }

    pub fn asset_with_path(message: &str, path: &str) -> (r: Self)
        ensures
            r is Asset,
            r.spec_message() == message@,
            r->Asset_path is Some && r->Asset_path->0@ == path@,
            !r.spec_has_source(),
    {
        AnvilKitError::Asset {
            message: String::from_str(message),
            path: Some(String::from_str(path)),
            source: None,
        }
    }

    pub fn audio(message: &str) -> (r: Self)
        ensures
            r is Audio,
            r.spec_message() == message@,
            !r.spec_has_source(),
    {
        AnvilKitError::Audio { message: String::from_str(message), source: None }
    }

    pub fn input(message: &str) -> (r: Self)
        ensures
            r is Input,
            r.spec_message() == message@,
            !r.spec_has_source(),
    {
        AnvilKitError::Input { message: String::from_str(message), source: None }
    }

    pub fn ecs(message: &str) -> (r: Self)
        ensures
            r is Ecs,
            r.spec_message() == message@,
            !r.spec_has_source(),
    {
        AnvilKitError::Ecs { message: String::from_str(message), source: None }
    }

    pub fn window(message: &str) -> (r: Self)
        ensures
            r is Window,
            r.spec_message() == message@,
            !r.spec_has_source(),
    {
        AnvilKitError::Window { message: String::from_str(message), source: None }
    }

    pub fn config(message: &str) -> (r: Self)
        ensures
            r is Config,
            r.spec_message() == message@,
            r->Config_key is None,
            !r.spec_has_source(),
    {
        AnvilKitError::Config { message: String::from_str(message), key: None, source: None }
    }

    pub fn config_with_key(message: &str, key: &str) -> (r: Self)
        ensures
            r is Config,
            r.spec_message() == message@,
            r->Config_key is Some && r->Config_key->0@ == key@,
            !r.spec_has_source(),
    {
        AnvilKitError::Config {
            message: String::from_str(message),
            key: Some(String::from_str(key)),
            source: None,
        }
    }

    pub fn network(message: &str) -> (r: Self)
        ensures
            r is Network,
            r.spec_message() == message@,
            !r.spec_has_source(),
    {
        AnvilKitError::Network { message: String::from_str(message), source: None }
    }

    pub fn serialization(message: &str) -> (r: Self)
        ensures
            r is Serialization,
            r.spec_message() == message@,
            !r.spec_has_source(),
    {
        AnvilKitError::Serialization { message: String::from_str(message), source: None }
    }

    pub fn generic(message: &str) -> (r: Self)
        ensures
            r is Generic,
            r.spec_message() == message@,
            !r.spec_has_source(),
    {
        AnvilKitError::Generic { message: String::from_str(message), source: None }
    }

    pub fn category(&self) -> (r: ErrorCategory)
        ensures
            r == self.spec_category(),
    {
        match self {
            AnvilKitError::Render { .. } => ErrorCategory::Render,
            AnvilKitError::Physics { .. } => ErrorCategory::Physics,
            AnvilKitError::Asset { .. } => ErrorCategory::Asset,
            AnvilKitError::Audio { .. } => ErrorCategory::Audio,
            AnvilKitError::Input { .. } => ErrorCategory::Input,
            AnvilKitError::Ecs { .. } => ErrorCategory::Ecs,
            AnvilKitError::Window { .. } => ErrorCategory::Window,
            AnvilKitError::Config { .. } => ErrorCategory::Config,
            AnvilKitError::Network { .. } => ErrorCategory::Network,
            AnvilKitError::Io(_) => ErrorCategory::Io,
            AnvilKitError::Serialization { .. } => ErrorCategory::Serialization,
            AnvilKitError::Generic { .. } => ErrorCategory::Generic,
        }
    }

    /// The message of the error; for an I/O error, the text of the I/O error.
    pub fn message(&self) -> (r: String)
        ensures
            !(self is Io) ==> r@ == self.spec_message(),
    {
        match self {
            AnvilKitError::Render { message, .. } => message.clone(),
            AnvilKitError::Physics { message, .. } => message.clone(),
            AnvilKitError::Asset { message, .. } => message.clone(),
            AnvilKitError::Audio { message, .. } => message.clone(),
            AnvilKitError::Input { message, .. } => message.clone(),
            AnvilKitError::Ecs { message, .. } => message.clone(),
            AnvilKitError::Window { message, .. } => message.clone(),
            AnvilKitError::Config { message, .. } => message.clone(),
            AnvilKitError::Network { message, .. } => message.clone(),
            AnvilKitError::Io(err) => io_error_text(err),
            AnvilKitError::Serialization { message, .. } => message.clone(),
            AnvilKitError::Generic { message, .. } => message.clone(),
        }
    }

    pub fn is_category(&self, category: ErrorCategory) -> (r: bool)
        ensures
            r == (self.spec_category() == category),
    {
        self.category() == category
    }

    /// The underlying cause, if the error carries one.
    pub fn source(&self) -> (r: Option<&AnvilKitError>)
        ensures
            r.is_some() == self.spec_has_source(),
    {
        let s = match self {
            AnvilKitError::Render { source, .. } => source,
            AnvilKitError::Physics { source, .. } => source,
            AnvilKitError::Asset { source, .. } => source,
            AnvilKitError::Audio { source, .. } => source,
            AnvilKitError::Input { source, .. } => source,
            AnvilKitError::Ecs { source, .. } => source,
            AnvilKitError::Window { source, .. } => source,
            AnvilKitError::Config { source, .. } => source,
            AnvilKitError::Network { source, .. } => source,
            AnvilKitError::Io(_) => {
                return None;
            },
            AnvilKitError::Serialization { source, .. } => source,
            AnvilKitError::Generic { source, .. } => source,
        };
        match s {
            Some(b) => Some(&**b),
            None => None,
        }
    }

    /// The displayed form: the category's prefix, a colon, and the message.
    pub fn to_string(&self) -> (r: String)
        ensures
            !(self is Io) ==> r@ == display_prefix(self.spec_category()) + ": "@
                + self.spec_message(),
    {
        let prefix = match self {
            AnvilKitError::Render { .. } => "渲染错误",
            AnvilKitError::Physics { .. } => "物理错误",
            AnvilKitError::Asset { .. } => "资源错误",
            AnvilKitError::Audio { .. } => "音频错误",
            AnvilKitError::Input { .. } => "输入错误",
            AnvilKitError::Ecs { .. } => "ECS 错误",
            AnvilKitError::Window { .. } => "窗口错误",
            AnvilKitError::Config { .. } => "配置错误",
            AnvilKitError::Network { .. } => "网络错误",
            AnvilKitError::Io(_) => "I/O 错误",
            AnvilKitError::Serialization { .. } => "序列化错误",
            AnvilKitError::Generic { .. } => "AnvilKit 错误",
        };
        proof {
            reveal_strlit("渲染错误");
            reveal_strlit("物理错误");
            reveal_strlit("资源错误");
            reveal_strlit("音频错误");
            reveal_strlit("输入错误");
            reveal_strlit("ECS 错误");
            reveal_strlit("窗口错误");
            reveal_strlit("配置错误");
            reveal_strlit("网络错误");
            reveal_strlit("I/O 错误");
            reveal_strlit("序列化错误");
            reveal_strlit("AnvilKit 错误");
        }
        let msg = self.message();
        String::from_str(prefix).concat(": ").concat(msg.as_str())
    }

    /// Wraps the error in a generic one whose message starts with `context`.
    /// A generic error keeps its cause and gets the context in front of its
    /// message; any other error becomes the cause of the new one, whose
    /// message is the context followed by the displayed old error.
    pub fn with_context(self, context: &str) -> (r: Self)
        ensures
            r is Generic,
            self is Generic ==> r.spec_message() == context@ + ": "@ + self.spec_message()
                && r->Generic_source == self->Generic_source,
            !(self is Generic) ==> r->Generic_source == Some(Box::new(self)),
            !(self is Generic) && !(self is Io) ==> r.spec_message() == context@ + ": "@
                + display_prefix(self.spec_category()) + ": "@ + self.spec_message(),
    {
        match self {
            AnvilKitError::Generic { message, source } => {
                let m = String::from_str(context).concat(": ").concat(message.as_str());
                AnvilKitError::Generic { message: m, source }
            },
            _ => {
                let shown = self.to_string();
                let m = String::from_str(context).concat(": ").concat(shown.as_str());
                proof {
                    if !(self is Io) {
                        assert(m@ =~= context@ + ": "@ + display_prefix(self.spec_category()) + ": "@
                            + self.spec_message());
                    }
                }
                AnvilKitError::Generic { message: m, source: Some(Box::new(self)) }
            },
        }
    }
}

impl From<std::io::Error> for AnvilKitError {
    fn from(e: std::io::Error) -> (r: Self) {
        AnvilKitError::Io(e)
    }
}

impl vstd::std_specs::convert::FromSpecImpl<std::io::Error> for AnvilKitError {
    open spec fn obeys_from_spec() -> bool {
        true
    }

    open spec fn from_spec(e: std::io::Error) -> Self {
        AnvilKitError::Io(e)
    }
}

} // verus!
