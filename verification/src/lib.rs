//! The logic of synchronising blog posts with a GitHub repository: writing a post
//! as a markdown document with a YAML front matter, reading one back, encoding and
//! decoding the contents that GitHub's API carries, and the decisions of each
//! synchronisation step.
pub mod text;
pub mod metadata;
pub mod external;
pub mod post;
pub mod frontmatter;
pub mod github_record;
pub mod errors;
pub mod sync;
pub mod traits;
