//! The people of the bank and their roles.
use vstd::prelude::*;
use vstd::string::StringExecFns;
use crate::clock::now_millis;
use crate::text::{all_ascii, ascii_lower_all, is_code_char, lemma_code_text_lower, lowercase_text, str_eq, to_lowercase};

verus! {

/// The roles of people in the system.
#[derive(Debug, Clone, Copy, PartialEq, Eq, Structural)]
pub enum PersonType {
    /// A customer: full wallets, can trade
    Customer,
    /// A bank employee: receives salary, buys insurance
    Employee,
    /// A shareholder: receives dividends
    Shareholder,
    /// A manager: approves operations
    Manager,
    /// An auditor: read-only
    Auditor,
}

/// The code of a person type.
pub open spec fn person_type_text(t: PersonType) -> Seq<char> {
    match t {
        PersonType::Customer => "customer"@,
        PersonType::Employee => "employee"@,
        PersonType::Shareholder => "shareholder"@,
        PersonType::Manager => "manager"@,
        PersonType::Auditor => "auditor"@,
    }
}

/// The person type that a lower-cased code names.
pub open spec fn person_type_of(w: Seq<char>) -> Option<PersonType> {
    if w == "customer"@ {
        Some(PersonType::Customer)
    } else if w == "employee"@ {
        Some(PersonType::Employee)
    } else if w == "shareholder"@ {
        Some(PersonType::Shareholder)
    } else if w == "manager"@ {
        Some(PersonType::Manager)
    } else if w == "auditor"@ {
        Some(PersonType::Auditor)
    } else {
        None
    }
}

/// The identifier prefix of a person type.
pub open spec fn id_prefix_text(t: PersonType) -> Seq<char> {
    match t {
        PersonType::Customer => "CUST"@,
        PersonType::Employee => "EMP"@,
        PersonType::Shareholder => "SH"@,
        PersonType::Manager => "MGR"@,
        PersonType::Auditor => "AUDIT"@,
    }
}

impl PersonType {
    /// The code string stored in the database.
    pub fn as_str(&self) -> (r: &'static str)
        ensures
            r@ == person_type_text(*self),
    {
        proof {
            reveal_strlit("customer");
            reveal_strlit("employee");
            reveal_strlit("shareholder");
            reveal_strlit("manager");
            reveal_strlit("auditor");
        }
        match self {
            PersonType::Customer => "customer",
            PersonType::Employee => "employee",
            PersonType::Shareholder => "shareholder",
            PersonType::Manager => "manager",
            PersonType::Auditor => "auditor",
        }
    }

    /// Parses a code, ignoring case.
    pub fn from_str(s: &str) -> (r: Option<PersonType>)
        ensures
            r == person_type_of(lowercase_text(s@)),
            all_ascii(s@) ==> r == person_type_of(ascii_lower_all(s@)),
    {
        let lower = to_lowercase(s);
        let w = lower.as_str();
        proof {
            reveal_strlit("customer");
            reveal_strlit("employee");
            reveal_strlit("shareholder");
            reveal_strlit("manager");
            reveal_strlit("auditor");
        }
        if str_eq(w, "customer") {
            Some(PersonType::Customer)
        } else if str_eq(w, "employee") {
            Some(PersonType::Employee)
        } else if str_eq(w, "shareholder") {
            Some(PersonType::Shareholder)
        } else if str_eq(w, "manager") {
            Some(PersonType::Manager)
        } else if str_eq(w, "auditor") {
            Some(PersonType::Auditor)
        } else {
            None
        }
    }

    /// Whether people of this type hold an account with wallets.
    pub fn has_account(&self) -> (r: bool)
        ensures
            r == (*self == PersonType::Customer || *self == PersonType::Employee || *self == PersonType::Shareholder),
    {
        match self {
            PersonType::Customer | PersonType::Employee | PersonType::Shareholder => true,
            _ => false,
        }
    }

    /// Whether people of this type may approve operations.
    pub fn can_approve(&self) -> (r: bool)
        ensures
            r == (*self == PersonType::Manager),
    {
        match self {
            PersonType::Manager => true,
            _ => false,
        }
    }

    /// Whether people of this type may read events and audit.
    pub fn can_audit(&self) -> (r: bool)
        ensures
            r == (*self == PersonType::Auditor || *self == PersonType::Manager),
    {
        match self {
            PersonType::Auditor | PersonType::Manager => true,
            _ => false,
        }
    }
}

/// A person in the system.
#[derive(Debug)]
pub struct Person {
    /// The identifier (CUST_001, EMP_001, AUDIT_001, ...)
    pub id: String,
    /// The role
    pub person_type: PersonType,
    /// The full name
    pub name: String,
    /// The email, if any
    pub email: Option<String>,
    /// The creation time, in milliseconds since the Unix epoch
    pub created_at: i64,
}

/// The text of an optional string.
pub open spec fn opt_text(o: Option<String>) -> Option<Seq<char>> {
    match o {
        Some(s) => Some(s@),
        None => None,
    }
}

impl Person {
    /// A new person with no email, created now.
    pub fn new(id: String, person_type: PersonType, name: String) -> (r: Person)
        ensures
            r.id@ == id@,
            r.person_type == person_type,
            r.name@ == name@,
            r.email is None,
    {
        Person { id, person_type, name, email: None, created_at: now_millis() }
    }

    /// The person with an email.
    pub fn with_email(self, email: String) -> (r: Person)
        ensures
            r.id@ == self.id@,
            r.person_type == self.person_type,
            r.name@ == self.name@,
            opt_text(r.email) == Some(email@),
            r.created_at == self.created_at,
    {
        Person { email: Some(email), ..self }
    }

    /// A customer.
    pub fn customer(id: &str, name: &str) -> (r: Person)
        ensures
            r.id@ == id@,
            r.person_type == PersonType::Customer,
            r.name@ == name@,
            r.email is None,
    {
        Self::new(id.to_string(), PersonType::Customer, name.to_string())
    }

    /// An employee.
    pub fn employee(id: &str, name: &str) -> (r: Person)
        ensures
            r.id@ == id@,
            r.person_type == PersonType::Employee,
            r.name@ == name@,
            r.email is None,
    {
        Self::new(id.to_string(), PersonType::Employee, name.to_string())
    }

    /// A shareholder.
    pub fn shareholder(id: &str, name: &str) -> (r: Person)
        ensures
            r.id@ == id@,
            r.person_type == PersonType::Shareholder,
            r.name@ == name@,
            r.email is None,
    {
        Self::new(id.to_string(), PersonType::Shareholder, name.to_string())
    }

    /// A manager.
    pub fn manager(id: &str, name: &str) -> (r: Person)
        ensures
            r.id@ == id@,
            r.person_type == PersonType::Manager,
            r.name@ == name@,
            r.email is None,
    {
        Self::new(id.to_string(), PersonType::Manager, name.to_string())
    }

    /// An auditor.
    pub fn auditor(id: &str, name: &str) -> (r: Person)
        ensures
            r.id@ == id@,
            r.person_type == PersonType::Auditor,
            r.name@ == name@,
            r.email is None,
    {
        Self::new(id.to_string(), PersonType::Auditor, name.to_string())
    }

    /// The person in words: "<name> (<id> - <type>)".
    pub fn display_text(&self) -> (r: String)
        ensures
            r@ == self.name@ + " ("@ + self.id@ + " - "@ + person_type_text(self.person_type) + ")"@,
    {
        proof {
            reveal_strlit(" (");
            reveal_strlit(" - ");
            reveal_strlit(")");
        }
        let mut s = crate::text::concat_str(self.name.as_str(), " (");
        s.append(self.id.as_str());
        s.append(" - ");
        s.append(self.person_type.as_str());
        s.append(")");
        s
    }

    /// Whether the person needs an account.
    pub fn needs_account(&self) -> (r: bool)
        ensures
            r == (self.person_type == PersonType::Customer || self.person_type == PersonType::Employee
                || self.person_type == PersonType::Shareholder),
    {
        self.person_type.has_account()
    }

    /// The identifier prefix for a person type.
    pub fn id_prefix(person_type: PersonType) -> (r: &'static str)
        ensures
            r@ == id_prefix_text(person_type),
    {
        proof {
            reveal_strlit("CUST");
            reveal_strlit("EMP");
            reveal_strlit("SH");
            reveal_strlit("MGR");
            reveal_strlit("AUDIT");
        }
        match person_type {
            PersonType::Customer => "CUST",
            PersonType::Employee => "EMP",
            PersonType::Shareholder => "SH",
            PersonType::Manager => "MGR",
            PersonType::Auditor => "AUDIT",
        }
    }
}


/// The code of every person type reads back as that type.
pub proof fn lemma_person_code_round_trip(t: PersonType)
    ensures
        all_ascii(person_type_text(t)),
        person_type_of(ascii_lower_all(person_type_text(t))) == Some(t),
{
    reveal_strlit("customer");
    reveal_strlit("employee");
    reveal_strlit("shareholder");
    reveal_strlit("manager");
    reveal_strlit("auditor");
    let c = person_type_text(t);
    assert(forall|i: int| 0 <= i < c.len() ==> is_code_char(#[trigger] c[i]));
    assert(person_type_text(PersonType::Customer)[0] != person_type_text(PersonType::Employee)[0]);
    assert(person_type_text(PersonType::Customer).len() != person_type_text(PersonType::Shareholder).len());
    assert(person_type_text(PersonType::Customer).len() != person_type_text(PersonType::Manager).len());
    assert(person_type_text(PersonType::Customer).len() != person_type_text(PersonType::Auditor).len());
    assert(person_type_text(PersonType::Employee).len() != person_type_text(PersonType::Shareholder).len());
    assert(person_type_text(PersonType::Employee).len() != person_type_text(PersonType::Manager).len());
    assert(person_type_text(PersonType::Employee).len() != person_type_text(PersonType::Auditor).len());
    assert(person_type_text(PersonType::Shareholder).len() != person_type_text(PersonType::Manager).len());
    assert(person_type_text(PersonType::Shareholder).len() != person_type_text(PersonType::Auditor).len());
    assert(person_type_text(PersonType::Manager)[0] != person_type_text(PersonType::Auditor)[0]);
    lemma_code_text_lower(c);
}

} // verus!
