use vstd::prelude::*;

verus! {

/// One recent post of a profile: the image, an optional video preview (equal
/// to the image when the post is a video), a direct link built from the post's
/// shortcode, and a formatted date (or the sentinel text when unknown).
#[derive(Debug, PartialEq, Eq)]
pub struct PostSummary {
    pub image_url: String,
    pub video_preview_url: Option<String>,
    pub direct_link: String,
    pub date: String,
}

/// Mathematical model of a `PostSummary`: the same fields as character sequences.
pub struct SpecPost {
    pub image_url: Seq<char>,
    pub video_preview_url: Option<Seq<char>>,
    pub direct_link: Seq<char>,
    pub date: Seq<char>,
}

impl View for PostSummary {
    type V = SpecPost;

    open spec fn view(&self) -> SpecPost {
        SpecPost {
            image_url: self.image_url@,
            video_preview_url: match self.video_preview_url {
                Some(s) => Some(s@),
                None => None,
            },
            direct_link: self.direct_link@,
            date: self.date@,
        }
    }
}

impl Clone for PostSummary {
    fn clone(&self) -> (r: Self)
        ensures
            r@ == self@,
    {
        PostSummary {
            image_url: self.image_url.clone(),
            video_preview_url: match &self.video_preview_url {
                Some(s) => Some(s.clone()),
                None => None,
            },
            direct_link: self.direct_link.clone(),
            date: self.date.clone(),
        }
    }
}

/// A fully populated profile record: every field carries a value, with the
/// documented default standing in for anything the upstream payload lacked.
#[derive(Debug, PartialEq, Eq)]
pub struct ProfileSnapshot {
    pub username: String,
    pub full_name: String,
    pub biography: String,
    pub profile_pic_url: String,
    pub is_private: bool,
    pub is_verified: bool,
    pub followers_count: i64,
    pub following_count: i64,
    pub posts_count: i64,
    pub posts: Vec<PostSummary>,
}

/// Mathematical model of a `ProfileSnapshot`.
pub struct SpecSnapshot {
    pub username: Seq<char>,
    pub full_name: Seq<char>,
    pub biography: Seq<char>,
    pub profile_pic_url: Seq<char>,
    pub is_private: bool,
    pub is_verified: bool,
    pub followers_count: i64,
    pub following_count: i64,
    pub posts_count: i64,
    pub posts: Seq<SpecPost>,
}

impl View for ProfileSnapshot {
    type V = SpecSnapshot;

    open spec fn view(&self) -> SpecSnapshot {
        SpecSnapshot {
            username: self.username@,
            full_name: self.full_name@,
            biography: self.biography@,
            profile_pic_url: self.profile_pic_url@,
            is_private: self.is_private,
            is_verified: self.is_verified,
            followers_count: self.followers_count,
            following_count: self.following_count,
            posts_count: self.posts_count,
            posts: self.posts@.map_values(|p: PostSummary| p@),
        }
    }
}

impl Clone for ProfileSnapshot {
    fn clone(&self) -> (r: Self)
        ensures
            r@ == self@,
    {
        let r = ProfileSnapshot {
            username: self.username.clone(),
            full_name: self.full_name.clone(),
            biography: self.biography.clone(),
            profile_pic_url: self.profile_pic_url.clone(),
            is_private: self.is_private,
            is_verified: self.is_verified,
            followers_count: self.followers_count,
            following_count: self.following_count,
            posts_count: self.posts_count,
            posts: self.posts.clone(),
        };
        proof {
            assert(r.posts@.map_values(|p: PostSummary| p@) =~= self.posts@.map_values(
                |p: PostSummary| p@,
            ));
        }
        r
    }
}

/// The defaulted record for `username`: empty strings, false flags, zero
/// counts, no posts.
pub open spec fn spec_default_snapshot(username: Seq<char>) -> SpecSnapshot {
    SpecSnapshot {
        username: username,
        full_name: Seq::empty(),
        biography: Seq::empty(),
        profile_pic_url: Seq::empty(),
        is_private: false,
        is_verified: false,
        followers_count: 0,
        following_count: 0,
        posts_count: 0,
        posts: Seq::empty(),
    }
}

/// Builds the defaulted record that stands in for an absent or failed payload.
pub fn default_snapshot(username: String) -> (r: ProfileSnapshot)
    ensures
        r@ == spec_default_snapshot(username@),
{
    let r = ProfileSnapshot {
        username,
        full_name: String::new(),
        biography: String::new(),
        profile_pic_url: String::new(),
        is_private: false,
        is_verified: false,
        followers_count: 0,
        following_count: 0,
        posts_count: 0,
        posts: Vec::new(),
    };
    proof {
        assert(r.posts@.map_values(|p: PostSummary| p@) =~= Seq::<SpecPost>::empty());
    }
    r
}

} // verus!
