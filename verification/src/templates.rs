//! Message templates: canned cue texts for the director and canned
//! feedback texts for the performer.
//!
//! The collection logic lives here; reading and writing the template file
//! is left to the surrounding application.

use vstd::prelude::*;
use crate::types::{new_id, str_eq};

verus! {

/// A director-side cue template.
#[derive(Debug)]
pub struct ServerTemplate {
    pub id: String,
    pub content: String,
    pub priority: String,
}

/// Mathematical value of a [`ServerTemplate`].
pub struct ServerTemplateView {
    pub id: Seq<char>,
    pub content: Seq<char>,
    pub priority: Seq<char>,
}

impl View for ServerTemplate {
    type V = ServerTemplateView;

    open spec fn view(&self) -> ServerTemplateView {
        ServerTemplateView { id: self.id@, content: self.content@, priority: self.priority@ }
    }
}

impl Clone for ServerTemplate {
    fn clone(&self) -> (r: Self)
        ensures
            r@ == self@,
    {
        ServerTemplate {
            id: self.id.clone(),
            content: self.content.clone(),
            priority: self.priority.clone(),
        }
    }
}

/// A performer-side feedback template.
#[derive(Debug)]
pub struct ClientTemplate {
    pub id: String,
    pub content: String,
    pub feedback_type: String,
}

/// Mathematical value of a [`ClientTemplate`].
pub struct ClientTemplateView {
    pub id: Seq<char>,
    pub content: Seq<char>,
    pub feedback_type: Seq<char>,
}

impl View for ClientTemplate {
    type V = ClientTemplateView;

    open spec fn view(&self) -> ClientTemplateView {
        ClientTemplateView {
            id: self.id@,
            content: self.content@,
            feedback_type: self.feedback_type@,
        }
    }
}

impl Clone for ClientTemplate {
    fn clone(&self) -> (r: Self)
        ensures
            r@ == self@,
    {
        ClientTemplate {
            id: self.id.clone(),
            content: self.content.clone(),
            feedback_type: self.feedback_type.clone(),
        }
    }
}

pub open spec fn server_templates_view(v: Seq<ServerTemplate>) -> Seq<ServerTemplateView> {
    Seq::new(v.len(), |i: int| v[i]@)
}

pub open spec fn client_templates_view(v: Seq<ClientTemplate>) -> Seq<ClientTemplateView> {
    Seq::new(v.len(), |i: int| v[i]@)
}

/// Both template collections.
#[derive(Debug)]
pub struct TemplateConfig {
    pub server_templates: Vec<ServerTemplate>,
    pub client_templates: Vec<ClientTemplate>,
}

impl Default for TemplateConfig {
    /// The starting template set: three cue texts and one canned feedback
    /// text per feedback type, each under a fresh identifier.
    fn default() -> (r: Self)
        ensures
            r.server_templates@.len() == 3,
            r.server_templates@[0]@.content == "巻いてください"@ && r.server_templates@[0]@.priority
                == "high"@,
            r.server_templates@[1]@.content == "押してます"@ && r.server_templates@[1]@.priority
                == "normal"@,
            r.server_templates@[2]@.content == "お水下さい"@ && r.server_templates@[2]@.priority
                == "normal"@,
            r.client_templates@.len() == 4,
            r.client_templates@[0]@.content == "了解しました"@ && r.client_templates@[0]@.feedback_type
                == "ack"@,
            r.client_templates@[1]@.content == "質問があります"@
                && r.client_templates@[1]@.feedback_type == "question"@,
            r.client_templates@[2]@.content == "問題が発生しています"@
                && r.client_templates@[2]@.feedback_type == "issue"@,
            r.client_templates@[3]@.content == "情報を共有します"@
                && r.client_templates@[3]@.feedback_type == "info"@,
    {
        let mut server_templates: Vec<ServerTemplate> = Vec::new();
        server_templates.push(
            ServerTemplate {
                id: new_id(),
                content: "巻いてください".to_owned(),
                priority: "high".to_owned(),
            },
        );
        server_templates.push(
            ServerTemplate {
                id: new_id(),
                content: "押してます".to_owned(),
                priority: "normal".to_owned(),
            },
        );
        server_templates.push(
            ServerTemplate {
                id: new_id(),
                content: "お水下さい".to_owned(),
                priority: "normal".to_owned(),
            },
        );
        let mut client_templates: Vec<ClientTemplate> = Vec::new();
        client_templates.push(
            ClientTemplate {
                id: new_id(),
                content: "了解しました".to_owned(),
                feedback_type: "ack".to_owned(),
            },
        );
        client_templates.push(
            ClientTemplate {
                id: new_id(),
                content: "質問があります".to_owned(),
                feedback_type: "question".to_owned(),
            },
        );
        client_templates.push(
            ClientTemplate {
                id: new_id(),
                content: "問題が発生しています".to_owned(),
                feedback_type: "issue".to_owned(),
            },
        );
        client_templates.push(
            ClientTemplate {
                id: new_id(),
                content: "情報を共有します".to_owned(),
                feedback_type: "info".to_owned(),
            },
        );
        TemplateConfig { server_templates, client_templates }
    }
}

impl TemplateConfig {
    /// Append a new cue template under a fresh identifier.
    pub fn add_server_template(&mut self, content: String, priority: String) -> (r: ServerTemplate)
        ensures
            r@.content == content@,
            r@.priority == priority@,
            r@.id.len() == 36,
            server_templates_view(final(self).server_templates@) == server_templates_view(
                old(self).server_templates@,
            ).push(r@),
            final(self).client_templates == old(self).client_templates,
    {
        let t = ServerTemplate { id: new_id(), content, priority };
        let r = t.clone();
        let ghost prev = server_templates_view(self.server_templates@);
        self.server_templates.push(t);
        proof {
            assert(server_templates_view(self.server_templates@) =~= prev.push(r@));
        }
        r
    }

    /// Rewrite the first cue template with the given identifier; a missing
    /// identifier changes nothing and reports failure.
    pub fn update_server_template(&mut self, id: &str, content: String, priority: String) -> (r:
        bool)
        ensures
            final(self).client_templates == old(self).client_templates,
            r == exists|i: int|
                0 <= i < old(self).server_templates@.len()
                    && (#[trigger] old(self).server_templates@[i])@.id == id@,
            !r ==> final(self).server_templates == old(self).server_templates,
            r ==> exists|i: int|
                {
                    &&& 0 <= i < old(self).server_templates@.len()
                    &&& (#[trigger] old(self).server_templates@[i])@.id == id@
                    &&& forall|j: int|
                        0 <= j < i ==> (#[trigger] old(self).server_templates@[j])@.id != id@
                    &&& server_templates_view(final(self).server_templates@)
                        == server_templates_view(old(self).server_templates@).update(
                        i,
                        ServerTemplateView { id: id@, content: content@, priority: priority@ },
                    )
                },
    {
        let ghost prev = server_templates_view(self.server_templates@);
        let mut k: usize = 0;
        let n = self.server_templates.len();
        while k < n && !str_eq(self.server_templates[k].id.as_str(), id)
            invariant
                0 <= k <= n,
                n == self.server_templates@.len(),
                self.server_templates@ == old(self).server_templates@,
                self.client_templates == old(self).client_templates,
                forall|j: int|
                    0 <= j < k ==> (#[trigger] self.server_templates@[j])@.id != id@,
            decreases n - k,
        {
            k = k + 1;
        }
        if k < n {
            self.server_templates.set(
                k,
                ServerTemplate { id: id.to_owned(), content, priority },
            );
            proof {
                assert(server_templates_view(self.server_templates@) =~= prev.update(
                    k as int,
                    ServerTemplateView { id: id@, content: content@, priority: priority@ },
                ));
            }
            true
        } else {
            proof {
                assert forall|i: int|
                    0 <= i < self.server_templates@.len() implies (
                #[trigger] self.server_templates@[i])@.id != id@ by {}
            }
            false
        }
    }

    /// Delete every cue template with the given identifier.
    pub fn delete_server_template(&mut self, id: &str)
        ensures
            final(self).client_templates == old(self).client_templates,
            forall|i: int|
                0 <= i < final(self).server_templates@.len() ==> (
                #[trigger] final(self).server_templates@[i])@.id != id@,
    {
        let mut kept: Vec<ServerTemplate> = Vec::new();
        let n = self.server_templates.len();
        for i in 0..n
            invariant
                n == self.server_templates@.len(),
                self.server_templates@ == old(self).server_templates@,
                self.client_templates == old(self).client_templates,
                forall|j: int| 0 <= j < kept@.len() ==> (#[trigger] kept@[j])@.id != id@,
        {
            if !str_eq(self.server_templates[i].id.as_str(), id) {
                kept.push(self.server_templates[i].clone());
            }
        }
        self.server_templates = kept;
    }

    /// Append a new feedback template under a fresh identifier.
    pub fn add_client_template(&mut self, content: String, feedback_type: String) -> (r:
        ClientTemplate)
        ensures
            r@.content == content@,
            r@.feedback_type == feedback_type@,
            r@.id.len() == 36,
            client_templates_view(final(self).client_templates@) == client_templates_view(
                old(self).client_templates@,
            ).push(r@),
            final(self).server_templates == old(self).server_templates,
    {
        let t = ClientTemplate { id: new_id(), content, feedback_type };
        let r = t.clone();
        let ghost prev = client_templates_view(self.client_templates@);
        self.client_templates.push(t);
        proof {
            assert(client_templates_view(self.client_templates@) =~= prev.push(r@));
        }
        r
    }

    /// Rewrite the first feedback template with the given identifier; a
    /// missing identifier changes nothing and reports failure.
    pub fn update_client_template(&mut self, id: &str, content: String, feedback_type: String) -> (
        r: bool)
        ensures
            final(self).server_templates == old(self).server_templates,
            r == exists|i: int|
                0 <= i < old(self).client_templates@.len()
                    && (#[trigger] old(self).client_templates@[i])@.id == id@,
            !r ==> final(self).client_templates == old(self).client_templates,
            r ==> exists|i: int|
                {
                    &&& 0 <= i < old(self).client_templates@.len()
                    &&& (#[trigger] old(self).client_templates@[i])@.id == id@
                    &&& forall|j: int|
                        0 <= j < i ==> (#[trigger] old(self).client_templates@[j])@.id != id@
                    &&& client_templates_view(final(self).client_templates@)
                        == client_templates_view(old(self).client_templates@).update(
                        i,
                        ClientTemplateView {
                            id: id@,
                            content: content@,
                            feedback_type: feedback_type@,
                        },
                    )
                },
    {
        let ghost prev = client_templates_view(self.client_templates@);
        let mut k: usize = 0;
        let n = self.client_templates.len();
        while k < n && !str_eq(self.client_templates[k].id.as_str(), id)
            invariant
                0 <= k <= n,
                n == self.client_templates@.len(),
                self.client_templates@ == old(self).client_templates@,
                self.server_templates == old(self).server_templates,
                forall|j: int|
                    0 <= j < k ==> (#[trigger] self.client_templates@[j])@.id != id@,
            decreases n - k,
        {
            k = k + 1;
        }
        if k < n {
            self.client_templates.set(
                k,
                ClientTemplate { id: id.to_owned(), content, feedback_type },
            );
            proof {
                assert(client_templates_view(self.client_templates@) =~= prev.update(
                    k as int,
                    ClientTemplateView { id: id@, content: content@, feedback_type: feedback_type@ },
                ));
            }
            true
        } else {
            false
        }
    }

    /// Delete every feedback template with the given identifier.
    pub fn delete_client_template(&mut self, id: &str)
        ensures
            final(self).server_templates == old(self).server_templates,
            forall|i: int|
                0 <= i < final(self).client_templates@.len() ==> (
                #[trigger] final(self).client_templates@[i])@.id != id@,
    {
        let mut kept: Vec<ClientTemplate> = Vec::new();
        let n = self.client_templates.len();
        for i in 0..n
            invariant
                n == self.client_templates@.len(),
                self.client_templates@ == old(self).client_templates@,
                self.server_templates == old(self).server_templates,
                forall|j: int| 0 <= j < kept@.len() ==> (#[trigger] kept@[j])@.id != id@,
        {
            if !str_eq(self.client_templates[i].id.as_str(), id) {
                kept.push(self.client_templates[i].clone());
            }
        }
        self.client_templates = kept;
    }
}

} // verus!
