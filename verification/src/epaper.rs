//! Electronic paper displays.

use crate::oid::ObjectId;
use crate::route::{post, table, Method, Route};
use vstd::prelude::*;

verus! {

/// What an [`Epaper`] stands for.
pub struct EpaperView {
    pub id: Seq<u8>,
    pub name: Seq<char>,
    pub ip: Seq<char>,
}

/// A display, and the address under which it is reached.
#[derive(Debug)]
pub struct Epaper {
    id: ObjectId,
    name: String,
    ip: String,
}

impl View for Epaper {
    type V = EpaperView;

    closed spec fn view(&self) -> EpaperView {
        EpaperView { id: self.id@, name: self.name@, ip: self.ip@ }
    }
}

impl Epaper {
    /// The display that was stored with these values.
    pub fn restore(id: ObjectId, name: String, ip: String) -> (r: Epaper)
        ensures
            r@ == (EpaperView { id: id@, name: name@, ip: ip@ }),
    {
        Epaper { id, name, ip }
    }

    /// The identifier of the display.
    pub fn id(&self) -> (r: ObjectId)
        ensures
            r@ == self@.id,
    {
        self.id
    }

    /// The name of the display.
    pub fn name(&self) -> (r: &str)
        ensures
            r@ == self@.name,
    {
        self.name.as_str()
    }

    /// The address of the display.
    pub fn ip(&self) -> (r: &str)
        ensures
            r@ == self@.ip,
    {
        self.ip.as_str()
    }
}

impl Default for Epaper {
    /// A display without name and address, under a fresh identifier.
    fn default() -> (r: Epaper)
        ensures
            r@.name == Seq::<char>::empty(),
            r@.ip == Seq::<char>::empty(),
    {
        Epaper { id: ObjectId::new(), name: String::new(), ip: String::new() }
    }
}

/// The displays that are known, each by its name and its address.
pub fn get() -> (r: Vec<(&'static str, &'static str)>)
    ensures
        r@.len() == 2,
        r@[0].0@ == "neues Epaper"@ && r@[0].1@ == "1.2.3.4"@,
        r@[1].0@ == "altes Epaper"@ && r@[1].1@ == "2.3.4.5"@,
{
    let mut known: Vec<(&'static str, &'static str)> = Vec::new();
    known.push(("neues Epaper", "1.2.3.4"));
    known.push(("altes Epaper", "2.3.4.5"));
    known
}

/// The routes for displays: `POST /get`.
pub fn routes() -> (r: Vec<Route>)
    ensures
        table(r@) == seq![(Method::Post, "/get"@)],
{
    let mut r: Vec<Route> = Vec::new();
    r.push(post("/get"));
    assert(table(r@) =~= seq![(Method::Post, "/get"@)]);
    r
}

} // verus!
