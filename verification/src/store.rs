use vstd::prelude::*;

use crate::entities::{
    Attachment, Comment, Company, Incident, NotificationConfig, TicketType, User,
};

verus! {

/// The application's datastore, modelled in memory: one row set per entity
/// plus the singleton notification configuration. The storage layer enforces
/// no foreign-key cascade; relational consistency is the library's job and is
/// captured by [`Store::wf`].
pub struct Store {
    pub companies: Vec<Company>,
    pub users: Vec<User>,
    pub ticket_types: Vec<TicketType>,
    pub incidents: Vec<Incident>,
    pub comments: Vec<Comment>,
    pub attachments: Vec<Attachment>,
    pub notification_config: Option<NotificationConfig>,
    pub next_company_id: i32,
    pub next_user_id: i32,
    pub next_ticket_type_id: i32,
    pub next_incident_id: i32,
    pub next_comment_id: i32,
    pub next_attachment_id: i32,
}

impl Store {
    pub open spec fn has_company(self, id: i32) -> bool {
        exists|i: int| 0 <= i < self.companies@.len() && self.companies@[i].id == id
    }

    pub open spec fn has_user(self, id: i32) -> bool {
        exists|i: int| 0 <= i < self.users@.len() && self.users@[i].id == id
    }

    pub open spec fn has_ticket_type(self, id: i32) -> bool {
        exists|i: int| 0 <= i < self.ticket_types@.len() && self.ticket_types@[i].id == id
    }

    pub open spec fn has_incident(self, id: i32) -> bool {
        exists|i: int| 0 <= i < self.incidents@.len() && self.incidents@[i].id == id
    }

    pub open spec fn has_comment(self, id: i32) -> bool {
        exists|i: int| 0 <= i < self.comments@.len() && self.comments@[i].id == id
    }

    pub open spec fn has_user_with_email(self, email: Seq<char>) -> bool {
        exists|i: int| 0 <= i < self.users@.len() && self.users@[i].email@ == email
    }

    pub open spec fn has_ticket_code(self, code: Seq<char>) -> bool {
        exists|i: int|
            0 <= i < self.incidents@.len() && ((#[trigger] self.incidents@[i].ticket_code)
                matches Some(c) && c@ == code)
    }

    /// The unique company with the given id (meaningful under `wf`).
    pub open spec fn company_by_id(self, id: i32) -> Company {
        choose|c: Company| #[trigger] self.companies@.contains(c) && c.id == id
    }

    pub open spec fn user_by_id(self, id: i32) -> User {
        choose|u: User| #[trigger] self.users@.contains(u) && u.id == id
    }

    pub open spec fn ticket_type_by_id(self, id: i32) -> TicketType {
        choose|t: TicketType| #[trigger] self.ticket_types@.contains(t) && t.id == id
    }

    pub open spec fn incident_by_id(self, id: i32) -> Incident {
        choose|inc: Incident| #[trigger] self.incidents@.contains(inc) && inc.id == id
    }

    pub open spec fn user_by_email(self, email: Seq<char>) -> User {
        choose|u: User| #[trigger] self.users@.contains(u) && u.email@ == email
    }

    pub open spec fn unique_ids(self) -> bool {
        &&& forall|i: int, j: int|
            0 <= i < j < self.companies@.len() ==> self.companies@[i].id != self.companies@[j].id
        &&& forall|i: int, j: int|
            0 <= i < j < self.users@.len() ==> self.users@[i].id != self.users@[j].id
        &&& forall|i: int, j: int|
            0 <= i < j < self.ticket_types@.len() ==> self.ticket_types@[i].id
                != self.ticket_types@[j].id
        &&& forall|i: int, j: int|
            0 <= i < j < self.incidents@.len() ==> self.incidents@[i].id != self.incidents@[j].id
        &&& forall|i: int, j: int|
            0 <= i < j < self.comments@.len() ==> self.comments@[i].id != self.comments@[j].id
        &&& forall|i: int, j: int|
            0 <= i < j < self.attachments@.len() ==> self.attachments@[i].id
                != self.attachments@[j].id
    }

    pub open spec fn unique_emails(self) -> bool {
        forall|i: int, j: int|
            0 <= i < j < self.users@.len() ==> self.users@[i].email@ != self.users@[j].email@
    }

    /// Ticket codes are unique when present.
    pub open spec fn unique_ticket_codes(self) -> bool {
        forall|i: int, j: int|
            #![trigger self.incidents@[i].ticket_code, self.incidents@[j].ticket_code]
            0 <= i < j < self.incidents@.len() ==> !(self.incidents@[i].ticket_code matches Some(
                a,
            ) && self.incidents@[j].ticket_code matches Some(b) && a@ == b@)
    }

    /// No dangling references: children always point at rows that exist.
    /// A user's company, when set, exists; comments reference existing
    /// incidents; attachments reference existing incidents and comments.
    pub open spec fn referential_integrity(self) -> bool {
        &&& forall|i: int|
            0 <= i < self.users@.len() ==> (#[trigger] self.users@[i].company_id matches Some(c)
                ==> self.has_company(c))
        &&& forall|i: int|
            0 <= i < self.comments@.len() ==> self.has_incident(
                #[trigger] self.comments@[i].incident_id,
            )
        &&& forall|i: int|
            0 <= i < self.attachments@.len() ==> (#[trigger] self.attachments@[i].incident_id
                matches Some(n) ==> self.has_incident(n))
        &&& forall|i: int|
            0 <= i < self.attachments@.len() ==> (#[trigger] self.attachments@[i].comment_id
                matches Some(n) ==> self.has_comment(n))
    }

    /// A reset token and its expiry are set and cleared together.
    pub open spec fn reset_tokens_paired(self) -> bool {
        forall|i: int|
            0 <= i < self.users@.len() ==> ((#[trigger] self.users@[i].reset_token) is Some
                <==> self.users@[i].reset_token_expiry is Some)
    }

    /// Every id issued so far lies below its counter, so a counter value is
    /// always fresh; ids start at 1, so an incident's `company_id == 0` can
    /// never collide with a real company.
    pub open spec fn ids_bounded(self) -> bool {
        &&& 1 <= self.next_company_id
        &&& 1 <= self.next_user_id
        &&& 1 <= self.next_ticket_type_id
        &&& 1 <= self.next_incident_id
        &&& 1 <= self.next_comment_id
        &&& 1 <= self.next_attachment_id
        &&& forall|i: int|
            0 <= i < self.companies@.len() ==> 1 <= #[trigger] self.companies@[i].id
                < self.next_company_id
        &&& forall|i: int|
            0 <= i < self.users@.len() ==> 1 <= #[trigger] self.users@[i].id < self.next_user_id
        &&& forall|i: int|
            0 <= i < self.ticket_types@.len() ==> 1 <= #[trigger] self.ticket_types@[i].id
                < self.next_ticket_type_id
        &&& forall|i: int|
            0 <= i < self.incidents@.len() ==> 1 <= #[trigger] self.incidents@[i].id
                < self.next_incident_id
        &&& forall|i: int|
            0 <= i < self.comments@.len() ==> 1 <= #[trigger] self.comments@[i].id
                < self.next_comment_id
        &&& forall|i: int|
            0 <= i < self.attachments@.len() ==> 1 <= #[trigger] self.attachments@[i].id
                < self.next_attachment_id
    }

    /// An incident's tenant field is a company id or 0 (global).
    pub open spec fn incident_tenants_nonnegative(self) -> bool {
        forall|i: int| 0 <= i < self.incidents@.len() ==> #[trigger] self.incidents@[i].company_id >= 0
    }

    /// Well-formedness: the store invariant every operation preserves.
    pub open spec fn wf(self) -> bool {
        &&& self.unique_ids()
        &&& self.unique_emails()
        &&& self.unique_ticket_codes()
        &&& self.referential_integrity()
        &&& self.reset_tokens_paired()
        &&& self.ids_bounded()
        &&& self.incident_tenants_nonnegative()
    }

    /// An empty store, well-formed by construction.
    pub fn empty() -> (r: Store)
        ensures
            r.wf(),
            r.companies@ =~= Seq::<Company>::empty(),
            r.users@ =~= Seq::<User>::empty(),
            r.ticket_types@ =~= Seq::<TicketType>::empty(),
            r.incidents@ =~= Seq::<Incident>::empty(),
            r.comments@ =~= Seq::<Comment>::empty(),
            r.attachments@ =~= Seq::<Attachment>::empty(),
            r.notification_config is None,
            r.next_company_id == 1 && r.next_user_id == 1 && r.next_ticket_type_id == 1,
            r.next_incident_id == 1 && r.next_comment_id == 1 && r.next_attachment_id == 1,
    {
        Store {
            companies: Vec::new(),
            users: Vec::new(),
            ticket_types: Vec::new(),
            incidents: Vec::new(),
            comments: Vec::new(),
            attachments: Vec::new(),
            notification_config: None,
            next_company_id: 1,
            next_user_id: 1,
            next_ticket_type_id: 1,
            next_incident_id: 1,
            next_comment_id: 1,
            next_attachment_id: 1,
        }
    }

    /// Looks up a user row by id.
    pub fn find_user(&self, id: i32) -> (r: Option<&User>)
        ensures
            match r {
                Some(u) => self.users@.contains(*u) && u.id == id && self.has_user(id),
                None => !self.has_user(id),
            },
    {
        let n = self.users.len();
        for i in 0..n
            invariant
                n == self.users@.len(),
                forall|k: int| 0 <= k < i ==> self.users@[k].id != id,
        {
            if self.users[i].id == id {
                return Some(&self.users[i]);
            }
        }
        None
    }

    /// Looks up a user row by email.
    pub fn find_user_by_email(&self, email: &String) -> (r: Option<&User>)
        ensures
            match r {
                Some(u) => self.users@.contains(*u) && u.email@ == email@
                    && self.has_user_with_email(email@),
                None => !self.has_user_with_email(email@),
            },
    {
        let n = self.users.len();
        for i in 0..n
            invariant
                n == self.users@.len(),
                forall|k: int| 0 <= k < i ==> self.users@[k].email@ != email@,
        {
            if self.users[i].email.eq(email) {
                return Some(&self.users[i]);
            }
        }
        None
    }

    /// Looks up a company row by id.
    pub fn find_company(&self, id: i32) -> (r: Option<&Company>)
        ensures
            match r {
                Some(c) => self.companies@.contains(*c) && c.id == id && self.has_company(id),
                None => !self.has_company(id),
            },
    {
        let n = self.companies.len();
        for i in 0..n
            invariant
                n == self.companies@.len(),
                forall|k: int| 0 <= k < i ==> self.companies@[k].id != id,
        {
            if self.companies[i].id == id {
                return Some(&self.companies[i]);
            }
        }
        None
    }

    /// Looks up a ticket type row by id.
    pub fn find_ticket_type(&self, id: i32) -> (r: Option<&TicketType>)
        ensures
            match r {
                Some(t) => self.ticket_types@.contains(*t) && t.id == id
                    && self.has_ticket_type(id),
                None => !self.has_ticket_type(id),
            },
    {
        let n = self.ticket_types.len();
        for i in 0..n
            invariant
                n == self.ticket_types@.len(),
                forall|k: int| 0 <= k < i ==> self.ticket_types@[k].id != id,
        {
            if self.ticket_types[i].id == id {
                return Some(&self.ticket_types[i]);
            }
        }
        None
    }

    /// Looks up an incident row by id.
    pub fn find_incident(&self, id: i32) -> (r: Option<&Incident>)
        ensures
            match r {
                Some(inc) => self.incidents@.contains(*inc) && inc.id == id
                    && self.has_incident(id),
                None => !self.has_incident(id),
            },
    {
        let n = self.incidents.len();
        for i in 0..n
            invariant
                n == self.incidents@.len(),
                forall|k: int| 0 <= k < i ==> self.incidents@[k].id != id,
        {
            if self.incidents[i].id == id {
                return Some(&self.incidents[i]);
            }
        }
        None
    }

    /// Under `wf`, a row found by id is the row `user_by_id` denotes.
    pub proof fn lemma_user_found_is_unique(self, u: User)
        requires
            self.wf(),
            self.users@.contains(u),
        ensures
            self.user_by_id(u.id) == u,
            self.user_by_email(u.email@) == u,
    {
        let w = self.user_by_id(u.id);
        assert(self.users@.contains(u) && u.id == u.id);
        assert(self.users@.contains(w) && w.id == u.id);
        let i = choose|i: int| 0 <= i < self.users@.len() && self.users@[i] == u;
        let j = choose|j: int| 0 <= j < self.users@.len() && self.users@[j] == w;
        assert(i == j);
        let v = self.user_by_email(u.email@);
        assert(self.users@.contains(v) && v.email@ == u.email@);
        let k = choose|k: int| 0 <= k < self.users@.len() && self.users@[k] == v;
        assert(i == k);
    }

    /// Under `wf`, a company row is uniquely determined by its id.
    pub proof fn lemma_company_found_is_unique(self, c: Company)
        requires
            self.wf(),
            self.companies@.contains(c),
        ensures
            self.company_by_id(c.id) == c,
    {
        let w = self.company_by_id(c.id);
        assert(self.companies@.contains(w) && w.id == c.id);
        let i = choose|i: int| 0 <= i < self.companies@.len() && self.companies@[i] == c;
        let j = choose|j: int| 0 <= j < self.companies@.len() && self.companies@[j] == w;
        assert(i == j);
    }

    /// Under `wf`, an incident row is uniquely determined by its id.
    pub proof fn lemma_incident_found_is_unique(self, inc: Incident)
        requires
            self.wf(),
            self.incidents@.contains(inc),
        ensures
            self.incident_by_id(inc.id) == inc,
    {
        let w = self.incident_by_id(inc.id);
        assert(self.incidents@.contains(w) && w.id == inc.id);
        let i = choose|i: int| 0 <= i < self.incidents@.len() && self.incidents@[i] == inc;
        let j = choose|j: int| 0 <= j < self.incidents@.len() && self.incidents@[j] == w;
        assert(i == j);
    }

    /// Under `wf`, a ticket type row is uniquely determined by its id.
    pub proof fn lemma_ticket_type_found_is_unique(self, t: TicketType)
        requires
            self.wf(),
            self.ticket_types@.contains(t),
        ensures
            self.ticket_type_by_id(t.id) == t,
    {
        let w = self.ticket_type_by_id(t.id);
        assert(self.ticket_types@.contains(w) && w.id == t.id);
        let i = choose|i: int| 0 <= i < self.ticket_types@.len() && self.ticket_types@[i] == t;
        let j = choose|j: int| 0 <= j < self.ticket_types@.len() && self.ticket_types@[j] == w;
        assert(i == j);
    }
}

} // verus!
