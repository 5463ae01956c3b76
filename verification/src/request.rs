//! Requests to the registry, as plain values that a transport can send.

use crate::mirror::{MirrorConfig, MirrorConfigView};
use crate::views::views;
use vstd::prelude::*;

verus! {

/// The HTTP method of a request.
#[derive(Debug, Clone, Copy, PartialEq, Eq, Structural)]
pub enum Method {
    Get,
    Post,
    Put,
    Delete,
}

/// One string member of a JSON object.
#[derive(Debug, PartialEq, Eq)]
pub struct Field {
    pub name: String,
    pub value: String,
}

/// The view of [`Field`].
pub struct FieldView {
    pub name: Seq<char>,
    pub value: Seq<char>,
}

impl View for Field {
    type V = FieldView;

    open spec fn view(&self) -> FieldView {
        FieldView { name: self.name@, value: self.value@ }
    }
}

impl Clone for Field {
    fn clone(&self) -> (copy: Self)
        ensures
            copy@ == self@,
    {
        Field { name: self.name.clone(), value: self.value.clone() }
    }
}

impl Field {
    /// The member `name` with the value `value`.
    pub fn new(name: &str, value: &str) -> (field: Field)
        ensures
            field@ == (FieldView { name: name@, value: value@ }),
    {
        Field { name: String::from_str(name), value: String::from_str(value) }
    }
}

/// The body of a request: a JSON object of string members, or a mirror
/// configuration.
#[derive(Debug, PartialEq, Eq)]
pub enum RequestBody {
    Fields(Vec<Field>),
    Mirror(MirrorConfig),
}

/// The view of [`RequestBody`].
pub enum RequestBodyView {
    Fields(Seq<FieldView>),
    Mirror(MirrorConfigView),
}

impl View for RequestBody {
    type V = RequestBodyView;

    open spec fn view(&self) -> RequestBodyView {
        match self {
            RequestBody::Fields(fields) => RequestBodyView::Fields(views(fields@)),
            RequestBody::Mirror(config) => RequestBodyView::Mirror(config@),
        }
    }
}

impl Clone for RequestBody {
    fn clone(&self) -> (copy: Self)
        ensures
            copy@ == self@,
    {
        match self {
            RequestBody::Fields(fields) => {
                let copied = fields.clone();
                assert(views(copied@) =~= views(fields@));
                RequestBody::Fields(copied)
            },
            RequestBody::Mirror(config) => RequestBody::Mirror(config.clone()),
        }
    }
}

/// One request to the registry, with the description under which its
/// outcome is reported.
#[derive(Debug, PartialEq, Eq)]
pub struct Request {
    pub method: Method,
    pub endpoint: String,
    pub body: RequestBody,
    pub description: String,
}

/// The view of [`Request`].
pub struct RequestView {
    pub method: Method,
    pub endpoint: Seq<char>,
    pub body: RequestBodyView,
    pub description: Seq<char>,
}

impl View for Request {
    type V = RequestView;

    open spec fn view(&self) -> RequestView {
        RequestView {
            method: self.method,
            endpoint: self.endpoint@,
            body: self.body@,
            description: self.description@,
        }
    }
}

impl Clone for Request {
    fn clone(&self) -> (copy: Self)
        ensures
            copy@ == self@,
    {
        Request {
            method: self.method,
            endpoint: self.endpoint.clone(),
            body: self.body.clone(),
            description: self.description.clone(),
        }
    }
}

/// A body without members.
pub open spec fn no_fields() -> RequestBodyView {
    RequestBodyView::Fields(Seq::empty())
}

} // verus!
