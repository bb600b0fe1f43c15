//! Coordination core: todos, timers, the placeholder scanner, the quiet-window debouncer, the
//! reply budget, and the read models that join coordination state against the live registry.

pub mod ids;
pub mod text;
pub mod template_scan;
pub mod template;
pub mod debounce;
pub mod output;
pub mod todo_doc;
pub mod todo_comment;
pub mod todo_completion;
pub mod todo_repo;
pub mod todo;
pub mod todo_blocker;
pub mod todo_releaser;
pub mod todo_laws;
pub mod timer;
pub mod timer_repo;
pub mod timer_laws;
pub mod project_work;
pub mod project_work_laws;
pub mod lineage;
pub mod lineage_laws;
pub mod coordination;
pub mod mailbox;
pub mod link;
pub mod icon;
pub mod orchestration;
pub mod project_settings;
pub mod scoped;
pub mod snapshot;
pub mod report_flow;
