use vstd::prelude::*;

verus! {

/// A staff member who can be given tasks.
#[derive(Debug, Clone)]
pub struct Caretaker {
    pub id: u64,
    pub name: String,
    pub cred: String,
    /// Number of tasks currently assigned to this caretaker.
    pub case: usize,
}

impl Caretaker {
    /// A caretaker with no cases yet.
    pub fn new(id: u64, name: &str, cred: &str) -> (r: Self)
        ensures
            r.id == id,
            r.name@ == name@,
            r.cred@ == cred@,
            r.case == 0,
    {
        Caretaker { id, name: name.to_owned(), cred: cred.to_owned(), case: 0 }
    }

    /// A field-for-field copy.
    pub fn duplicate(&self) -> (r: Self)
        ensures
            r == *self,
    {
        Caretaker { id: self.id, name: self.name.clone(), cred: self.cred.clone(), case: self.case }
    }
}

/// Where a task takes place.
#[derive(Debug, Clone, Copy, PartialEq, Eq, Structural)]
pub enum Location {
    X,
    Y,
    Z,
}

/// How much of the requested service a task covers
/// (shown as "All", "Some" and "None").
#[derive(Debug, Clone, Copy, PartialEq, Eq, Structural)]
pub enum Service {
    All,
    Partial,
    Nothing,
}

impl Location {
    /// Label shown in the location selector.
    pub fn label(&self) -> (r: String)
        ensures
            r@ == location_label(*self),
    {
        match self {
            Location::X => "X".to_owned(),
            Location::Y => "Y".to_owned(),
            Location::Z => "Z".to_owned(),
        }
    }
}

impl Service {
    /// Label shown in the service selector.
    pub fn label(&self) -> (r: String)
        ensures
            r@ == service_label(*self),
    {
        match self {
            Service::All => "All".to_owned(),
            Service::Partial => "Some".to_owned(),
            Service::Nothing => "None".to_owned(),
        }
    }
}

pub open spec fn location_label(l: Location) -> Seq<char> {
    match l {
        Location::X => "X"@,
        Location::Y => "Y"@,
        Location::Z => "Z"@,
    }
}

pub open spec fn service_label(s: Service) -> Seq<char> {
    match s {
        Service::All => "All"@,
        Service::Partial => "Some"@,
        Service::Nothing => "None"@,
    }
}

/// A client's request for a service, optionally assigned to a caretaker.
#[derive(Debug, Clone)]
pub struct Task {
    pub id: u64,
    /// Id of the caretaker that holds the task, if any.
    pub assignee: Option<u64>,
    pub client_name: String,
    pub job: String,
    pub location: Location,
    pub service: Service,
}

impl Task {
    /// An unassigned task.
    pub fn new(id: u64, client_name: &str, job: &str, location: Location, service: Service) -> (r: Self)
        ensures
            r.id == id,
            r.assignee.is_none(),
            r.client_name@ == client_name@,
            r.job@ == job@,
            r.location == location,
            r.service == service,
    {
        Task {
            id,
            assignee: None,
            client_name: client_name.to_owned(),
            job: job.to_owned(),
            location,
            service,
        }
    }

    /// A field-for-field copy.
    pub fn duplicate(&self) -> (r: Self)
        ensures
            r == *self,
    {
        Task {
            id: self.id,
            assignee: self.assignee,
            client_name: self.client_name.clone(),
            job: self.job.clone(),
            location: self.location,
            service: self.service,
        }
    }
}

/// A named record with an age.
#[derive(Debug, Clone)]
pub struct Data {
    pub name: String,
    pub age: u32,
}

impl Data {
    pub fn new(name: &str, age: u32) -> (r: Self)
        ensures
            r.name@ == name@,
            r.age == age,
    {
        Data { name: name.to_owned(), age }
    }
}

} // verus!
