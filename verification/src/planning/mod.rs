//! The execution plan of a job: its direction and its billing mode.
use vstd::prelude::*;

use crate::direction::{self, Direction};
use crate::entry::job_plan_settings::JobCourseMode;
use crate::plan::{self, Plan};
use crate::text::{chars_of, str_is_blank};

verus! {

#[derive(Debug, Clone)]
pub struct ExecutionPlan {
    pub direction_id: String,
    pub billing_mode: String,
}

/// A configured value counts only when it is not blank.
pub open spec fn given(v: Option<String>) -> bool {
    v matches Some(s) && crate::text::trim_seq(s@).len() > 0
}

impl ExecutionPlan {
    /// Fixes the job's execution conditions from the configured values: the
    /// direction id defaults to "ja2zh"; the billing mode defaults to
    /// "free" for the experience course and "paid_standard" for the paid one.
    pub fn from_settings(
        direction_env: Option<String>,
        billing_env: Option<String>,
        mode: JobCourseMode,
    ) -> (r: Self)
        ensures
            r.direction_id@ == (if given(direction_env) {
                direction_env->0@
            } else {
                "ja2zh"@
            }),
            r.billing_mode@ == (if given(billing_env) {
                billing_env->0@
            } else {
                match mode {
                    JobCourseMode::Experience => "free"@,
                    JobCourseMode::Paid => "paid_standard"@,
                }
            }),
    {
        let direction_id = match direction_env {
            Some(v) => {
                if str_is_blank(v.as_str()) {
                    "ja2zh".to_owned()
                } else {
                    v
                }
            },
            None => "ja2zh".to_owned(),
        };
        let billing_mode = match billing_env {
            Some(v) => {
                if str_is_blank(v.as_str()) {
                    match mode {
                        JobCourseMode::Experience => "free".to_owned(),
                        JobCourseMode::Paid => "paid_standard".to_owned(),
                    }
                } else {
                    v
                }
            },
            None => match mode {
                JobCourseMode::Experience => "free".to_owned(),
                JobCourseMode::Paid => "paid_standard".to_owned(),
            },
        };
        ExecutionPlan { direction_id, billing_mode }
    }

    pub fn resolve_direction(&self) -> (r: Result<Direction, String>)
        ensures
            ({
                let n = direction::normalize_id(self.direction_id@);
                if n == "ja2zh"@ || n == "ja_zh"@ || n == "jazh"@ {
                    r matches Ok(d) && d is JaZh
                } else if n == "zh2ja"@ || n == "zh_ja"@ || n == "zhja"@ {
                    r matches Ok(d) && d is ZhJa
                } else {
                    r matches Err(m) && m@ == direction::unknown_direction_message(n)
                }
            }),
    {
        direction::resolve(self.direction_id.as_str())
    }

    pub fn resolve_plan(&self) -> (r: Result<Plan, String>)
        ensures
            ({
                let n = direction::normalize_id(self.billing_mode@);
                if n == "free"@ || n == "experience"@ || n == "trial"@ {
                    r matches Ok(p) && p is Free
                } else if n == "paid_standard"@ || n == "paid"@ || n == "full"@ {
                    r matches Ok(p) && p is PaidStandard
                } else {
                    r matches Err(m) && m@ == plan::unknown_plan_message(n)
                }
            }),
    {
        plan::resolve(self.billing_mode.as_str())
    }
}

} // verus!
