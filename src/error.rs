use vstd::prelude::*;
use vstd::string::StringExecFns;

verus! {

/// Which reserved label a pushed metric already carries.
#[derive(Debug)]
pub enum LabelType {
    /// The label `job`.
    Job,
    /// A label that is also a name of the grouping key.
    Grouping(String),
}

/// How a conflict names the reserved label.
pub open spec fn label_message(label: LabelType) -> Seq<char> {
    match label {
        LabelType::Job => "a job label"@,
        LabelType::Grouping(name) => "grouping label with value '"@ + name@ + "'"@,
    }
}

impl LabelType {
    /// How a conflict names this label: `a job label`, or
    /// `grouping label with value '<name>'`.
    pub fn message(&self) -> (r: String)
        ensures
            r@ == label_message(*self),
    {
        match self {
            LabelType::Job => String::from_str("a job label"),
            LabelType::Grouping(name) => {
                let mut text = String::from_str("grouping label with value '");
                text.append(name.as_str());
                text.append("'");
                text
            },
        }
    }
}

/// The errors of a push.
#[derive(Debug)]
pub enum PushMetricsError {
    /// A URL could not be parsed or joined.
    Url(url::ParseError),
    /// A pushed metric carries a label that the gateway reserves.
    AlreadyContainsLabel { metric: String, label: LabelType },
    /// A job name or a grouping label holds the separator `/`; the string is the offending one.
    SlashInName(String),
    /// The metrics backend failed to register or to encode.
    Prometheus(prometheus::Error),
    /// The prometheus-client backend failed to encode.
    PrometheusClient(core::fmt::Error),
    /// The gateway answered with a status other than 200 or 202.
    Response { status: u16, url: String },
    /// The reqwest client could not complete the exchange.
    Reqwest(reqwest::Error),
    /// Another client could not complete the exchange.
    Transport(String),
}

pub type Result<T> = core::result::Result<T, PushMetricsError>;

#[verifier::external_type_specification]
#[verifier::external_body]
pub struct ExParseError(url::ParseError);

#[verifier::external_type_specification]
#[verifier::external_body]
pub struct ExPrometheusError(prometheus::Error);

#[verifier::external_type_specification]
#[verifier::external_body]
pub struct ExReqwestError(reqwest::Error);

#[verifier::external_type_specification]
#[verifier::external_body]
pub struct ExFmtError(core::fmt::Error);

} // verus!
