//! The resume profile: the data that both renderers read.
use vstd::prelude::*;

verus! {

/// Name and contact details of the person.
#[derive(Clone, Debug, PartialEq, Eq)]
pub struct PersonalInfo {
    pub name: String,
    pub surname: String,
    pub email: String,
    pub phone: String,
    pub github: String,
    pub linkedin: String,
}

/// One position held; responsibilities keep their given order.
#[derive(Clone, Debug, PartialEq, Eq)]
pub struct Experience {
    pub company: String,
    pub position: String,
    pub location: String,
    pub employment_period: String,
    pub industry: String,
    pub key_responsibilities: Vec<String>,
}

/// A project with its details in order.
#[derive(Clone, Debug, PartialEq, Eq)]
pub struct Project {
    pub name: String,
    pub details: Vec<String>,
}

/// One degree or course taken at an institution.
#[derive(Clone, Debug, PartialEq, Eq)]
pub struct Education {
    pub institution: String,
    pub degree: String,
    pub course_name: Option<String>,
    pub instructor: Option<String>,
    pub completion_date: Option<String>,
    pub graduation_year: Option<String>,
    pub location: Option<String>,
    pub credential_id: Option<String>,
}

/// The four page margins, each a centimetre value such as `"2 cm"`.
#[derive(Clone, Debug, PartialEq, Eq)]
pub struct PageMargins {
    pub top: String,
    pub bottom: String,
    pub left: String,
    pub right: String,
}

/// Presentation settings of the document output.
#[derive(Clone, Debug, PartialEq, Eq)]
pub struct Design {
    pub page_size: String,
    pub margins: PageMargins,
    pub font: String,
    pub font_size: String,
}

/// A whole resume. Every list may be empty.
#[derive(Clone, Debug, PartialEq, Eq)]
pub struct Resume {
    pub personal_information: PersonalInfo,
    pub summary_of_qualifications: Vec<String>,
    pub experience_details: Vec<Experience>,
    pub projects: Vec<Project>,
    pub technical_skills: Vec<String>,
    pub education_details: Vec<Education>,
}

} // verus!
