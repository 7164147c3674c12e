use vstd::prelude::*;

verus! {

/// Registration request body.
#[derive(Clone, Debug)]
pub struct RegisterUserSchema {
    pub username: String,
    pub email: String,
    pub password: String,
}

/// Registration request body with every field optional (partial updates).
#[derive(Clone, Debug)]
pub struct RegisterUserSchemaOptional {
    pub username: Option<String>,
    pub email: Option<String>,
    pub password: Option<String>,
}

/// Login request body.
#[derive(Clone, Debug)]
pub struct LoginUserSchema {
    pub username: String,
    pub password: String,
}

/// Post-creation request body.
#[derive(Clone, Debug)]
pub struct CreatePostSchema {
    pub title: String,
    pub content: String,
}

/// Reaction request body: `true` for a like, `false` for a dislike.
#[derive(Clone, Copy, Debug, PartialEq, Eq, Structural)]
pub struct LikePostSchema {
    pub is_like: bool,
}

} // verus!
