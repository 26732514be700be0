use vstd::prelude::*;

verus! {

pub struct UserProfile {
    pub user_id: String,
    pub display_name: String,
    pub email: String,
    pub avatar_url: Option<String>,
}

impl UserProfile {
    /// A new profile: the user is shown under the identifier, without a
    /// picture.
    pub fn new(user_id: &str, email: &str) -> (profile: Self)
        ensures
            profile.user_id@ == user_id@,
            profile.display_name@ == user_id@,
            profile.email@ == email@,
            profile.avatar_url is None,
    {
        UserProfile {
            user_id: user_id.to_owned(),
            display_name: user_id.to_owned(),
            email: email.to_owned(),
            avatar_url: None,
        }
    }

    pub fn update_display_name(&mut self, new_name: String)
        ensures
            final(self).display_name == new_name,
            final(self).user_id == old(self).user_id,
            final(self).email == old(self).email,
            final(self).avatar_url == old(self).avatar_url,
    {
        self.display_name = new_name;
    }

    pub fn set_avatar(&mut self, url: String)
        ensures
            final(self).avatar_url == Some(url),
            final(self).user_id == old(self).user_id,
            final(self).display_name == old(self).display_name,
            final(self).email == old(self).email,
    {
        self.avatar_url = Some(url);
    }
}

} // verus!
