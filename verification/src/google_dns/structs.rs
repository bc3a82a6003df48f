//! The answer of the upstream resolver as its JSON body spells it, and the
//! errors of a lookup.
#![allow(non_snake_case)]

use vstd::prelude::*;
use vstd::string::StringExecFns;
use crate::views::{option_view, views};

verus! {

/// The body of an upstream answer.
#[derive(Debug, Clone)]
pub struct GoogleDnsResponse {
    /// The response code of the upstream lookup.
    pub Status: u8,
    /// The answer was truncated.
    pub TC: bool,
    /// Recursion was desired.
    pub RD: bool,
    /// Recursion was available.
    pub RA: bool,
    /// Every record was verified with DNSSEC.
    pub AD: bool,
    /// Checking was disabled by the client.
    pub CD: bool,
    /// The questions that were asked.
    pub Question: Vec<GoogleDnsQuestion>,
    /// The records that answer the question.
    pub Answer: Option<Vec<GoogleDnsAnswer>>,
    /// The records of the authority section.
    pub Authority: Option<Vec<GoogleDnsAnswer>>,
    /// A remark of the upstream resolver.
    pub Comment: Option<String>,
}

/// A question as the upstream resolver echoes it.
#[derive(Debug, Clone)]
pub struct GoogleDnsQuestion {
    /// The name that was asked about.
    pub name: String,
    /// The code of the record kind that was asked for.
    pub rtype: u8,
}

/// A record of an upstream answer.
#[derive(Debug)]
pub struct GoogleDnsAnswer {
    /// The name that the record belongs to.
    pub name: String,
    /// The code of the record kind.
    pub rtype: u8,
    /// Seconds for which the record may be cached.
    pub TTL: u32,
    /// The record data as text.
    pub data: String,
}

/// What a record of an upstream answer holds.
pub struct GoogleAnswerView {
    pub name: Seq<char>,
    pub rtype: u8,
    pub ttl: u32,
    pub data: Seq<char>,
}

impl View for GoogleDnsAnswer {
    type V = GoogleAnswerView;

    open spec fn view(&self) -> GoogleAnswerView {
        GoogleAnswerView { name: self.name@, rtype: self.rtype, ttl: self.TTL, data: self.data@ }
    }
}

impl Clone for GoogleDnsAnswer {
    fn clone(&self) -> (r: Self)
        ensures
            r@ == self@,
    {
        GoogleDnsAnswer {
            name: self.name.clone(),
            rtype: self.rtype,
            TTL: self.TTL,
            data: self.data.clone(),
        }
    }
}

/// What a question of an upstream answer holds.
pub struct GoogleQuestionView {
    pub name: Seq<char>,
    pub rtype: u8,
}

impl View for GoogleDnsQuestion {
    type V = GoogleQuestionView;

    open spec fn view(&self) -> GoogleQuestionView {
        GoogleQuestionView { name: self.name@, rtype: self.rtype }
    }
}

/// What an upstream answer holds.
pub struct GoogleResponseView {
    pub status: u8,
    pub tc: bool,
    pub rd: bool,
    pub ra: bool,
    pub ad: bool,
    pub cd: bool,
    pub question: Seq<GoogleQuestionView>,
    pub answer: Option<Seq<GoogleAnswerView>>,
    pub authority: Option<Seq<GoogleAnswerView>>,
    pub comment: Option<Seq<char>>,
}

/// What an optional record section holds.
pub open spec fn section_view(section: Option<Vec<GoogleDnsAnswer>>) -> Option<
    Seq<GoogleAnswerView>,
> {
    match section {
        Some(records) => Some(views(records@)),
        None => None,
    }
}

impl View for GoogleDnsResponse {
    type V = GoogleResponseView;

    open spec fn view(&self) -> GoogleResponseView {
        GoogleResponseView {
            status: self.Status,
            tc: self.TC,
            rd: self.RD,
            ra: self.RA,
            ad: self.AD,
            cd: self.CD,
            question: views(self.Question@),
            answer: section_view(self.Answer),
            authority: section_view(self.Authority),
            comment: option_view(self.Comment),
        }
    }
}

/// Why a lookup gave no record.
#[derive(Debug)]
pub enum ErrorType {
    /// The upstream answer could not be turned into a record; the message
    /// says why.
    ErrMsg(String),
    /// The upstream resolver knows no such name.
    NxDomain,
    /// Records of the kind that was asked for are not looked up.
    NotImplemented,
}

/// What an error holds.
pub enum ErrorView {
    ErrMsg(Seq<char>),
    NxDomain,
    NotImplemented,
}

impl View for ErrorType {
    type V = ErrorView;

    open spec fn view(&self) -> ErrorView {
        match *self {
            Self::ErrMsg(msg) => ErrorView::ErrMsg(msg@),
            Self::NxDomain => ErrorView::NxDomain,
            Self::NotImplemented => ErrorView::NotImplemented,
        }
    }
}

impl ErrorView {
    /// The error as a line of text.
    pub open spec fn message(self) -> Seq<char> {
        match self {
            Self::ErrMsg(msg) => "Error: "@ + msg,
            Self::NxDomain => "NXDOMAIN"@,
            Self::NotImplemented => "Error: Requested type not implemented"@,
        }
    }
}

impl ErrorType {
    /// An error with a message.
    pub fn new(msg: &str) -> (e: Self)
        ensures
            e@ == ErrorView::ErrMsg(msg@),
    {
        Self::ErrMsg(String::from_str(msg))
    }

    /// The error as a line of text.
    pub fn message(&self) -> (text: String)
        ensures
            text@ == self@.message(),
    {
        match self {
            Self::NxDomain => String::from_str("NXDOMAIN"),
            Self::ErrMsg(val) => {
                let mut text = String::from_str("Error: ");
                text.append(val.as_str());
                text
            },
            Self::NotImplemented => String::from_str("Error: Requested type not implemented"),
        }
    }
}

} // verus!
