//! Running a command in the context of a profile: the checks before it
//! and the environment it gets.
use vstd::prelude::*;
use crate::config::{Store, has_name, name_pos, store_profiles};
use crate::error::AppError;
use crate::interaction::InteractionHandler;
use crate::policy::{ProfileSafetyPolicy, sensitive};
use crate::sso::SsoStatus;
use crate::types::{Profile, ProfileView, effective_region, profile_tags, views};

verus! {

/// One environment variable to set.
pub struct EnvVar {
    pub key: String,
    pub value: String,
}

/// What to run: the program, its arguments, the variables to set and the
/// variables to remove from the child's environment.
pub struct ExecPlan {
    pub program: String,
    pub args: Vec<String>,
    pub env_vars: Vec<EnvVar>,
    pub remove_env_vars: Vec<String>,
}

/// Views of environment variables.
pub open spec fn env_views(v: Seq<EnvVar>) -> Seq<(Seq<char>, Seq<char>)> {
    v.map_values(|e: EnvVar| (e.key@, e.value@))
}

/// The variables a command gets: `AWS_PROFILE`, and `AWS_REGION` when a
/// region applies (metadata override first).
pub open spec fn exec_env(p: ProfileView, name: Seq<char>) -> Seq<(Seq<char>, Seq<char>)> {
    seq![("AWS_PROFILE"@, name)] + match effective_region(p) {
        Some(r) => seq![("AWS_REGION"@, r)],
        None => Seq::<(Seq<char>, Seq<char>)>::empty(),
    }
}

/// The credential variables removed from a command's environment unless
/// it is to be preserved.
pub open spec fn credential_vars() -> Seq<Seq<char>> {
    seq!["AWS_ACCESS_KEY_ID"@, "AWS_SECRET_ACCESS_KEY"@, "AWS_SESSION_TOKEN"@]
}

/// What the checks before running decide.
pub enum ExecCheck {
    /// Run with this profile.
    Proceed(Profile),
    /// Ask the user to confirm first (a sensitive profile without `yes`).
    Confirm(Profile),
}

/// Runs programs for `ExecLogic::execute`; the application runs real
/// subprocesses, tests record what they are given.
pub trait CommandExecutor {
    /// Whether `result` is an outcome that this executor may give for a
    /// run of `program` with `args`, setting `env_vars` and removing
    /// `remove_env_vars`; any outcome may be given unless an
    /// implementation says otherwise.
    open spec fn may_return(
        &self,
        program: Seq<char>,
        args: Seq<Seq<char>>,
        env_vars: Seq<(Seq<char>, Seq<char>)>,
        remove_env_vars: Seq<Seq<char>>,
        result: Result<i32, AppError>,
    ) -> bool {
        true
    }

    /// Runs `program` with `args`, setting `env_vars` and removing
    /// `remove_env_vars` from its environment; gives its exit code.
    fn run(&self, program: &str, args: &[String], env_vars: &[EnvVar], remove_env_vars: &[String]) -> (r: Result<
        i32,
        AppError,
    >)
        ensures
            self.may_return(program@, views(args@), env_views(env_vars@), views(remove_env_vars@), r),
    ;
}

/// The outcome of running a profile's command with an executor: the run
/// of the program `args[0]` with the remaining arguments, the profile's
/// variables set and (unless preserved) the credential variables removed.
pub open spec fn ran_plan<E: CommandExecutor>(
    executor: E,
    p: ProfileView,
    name: Seq<char>,
    args: Seq<Seq<char>>,
    preserve_env: bool,
    r: Result<i32, AppError>,
) -> bool {
    executor.may_return(
        args[0],
        args.skip(1),
        exec_env(p, name),
        if preserve_env { Seq::empty() } else { credential_vars() },
        r,
    )
}

/// The error of a refused confirmation.
pub open spec fn is_aborted(r: Result<i32, AppError>) -> bool {
    r matches Err(AppError::Unknown(s)) && s@ == "Aborted by user or policy."@
}

/// Logic for executing commands in a profile context.
pub struct ExecLogic;

/// Command to execute a subprocess within a profile context.
pub struct ExecCommand;

/// The executor that runs real subprocesses.
pub struct RealCommandExecutor;

impl ExecLogic {
    /// The checks before running: a command must be given and the
    /// profile must exist (by exact name); a sensitive profile needs
    /// confirmation unless `yes`.
    pub fn check(
        store: &Store,
        policy: &ProfileSafetyPolicy,
        profile_name: &str,
        args: &Vec<String>,
        yes: bool,
    ) -> (r: Result<ExecCheck, AppError>)
        requires
            store@.wf(),
        ensures
            ({
                let ps = store_profiles(store@);
                if args@.len() == 0 {
                    r matches Err(AppError::Unknown(s)) && s@ == "No command specified"@
                } else if !has_name(ps, profile_name@) {
                    r matches Err(AppError::ProfileNotFound(s)) && s@ == profile_name@
                } else {
                    let p = ps[name_pos(ps, profile_name@)];
                    if sensitive(policy@, profile_name@, profile_tags(p)) && !yes {
                        r matches Ok(ExecCheck::Confirm(q)) && q@ == p
                    } else {
                        r matches Ok(ExecCheck::Proceed(q)) && q@ == p
                    }
                }
            }),
    {
        if args.len() == 0 {
            return Err(AppError::Unknown("No command specified".to_string()));
        }
        let profile = match store.find_by_name(profile_name) {
            Some(p) => p,
            None => { return Err(AppError::ProfileNotFound(profile_name.to_string())); },
        };
        let tags = profile.tag_list();
        if policy.is_sensitive_profile(profile_name, tags.as_slice()) && !yes {
            Ok(ExecCheck::Confirm(profile))
        } else {
            Ok(ExecCheck::Proceed(profile))
        }
    }

    /// The outcome of asking for confirmation.
    pub fn after_confirmation(confirmed: bool) -> (r: Result<(), AppError>)
        ensures
            confirmed ==> r is Ok,
            !confirmed ==> (r matches Err(AppError::Unknown(s)) && s@ == "Aborted by user or policy."@),
    {
        if confirmed {
            Ok(())
        } else {
            Err(AppError::Unknown("Aborted by user or policy.".to_string()))
        }
    }

    /// The warning to print for an expired SSO session, if any.
    pub fn sso_warning(status: SsoStatus, profile_name: &str) -> (r: Option<String>)
        ensures
            status == SsoStatus::Expired ==> (r matches Some(s) && s@ == "Warning: SSO session for '"@
                + profile_name@ + "' is expired."@),
            status != SsoStatus::Expired ==> r is None,
    {
        if status == SsoStatus::Expired {
            Some("Warning: SSO session for '".to_string().concat(profile_name).concat("' is expired."))
        } else {
            None
        }
    }

    /// What to run: the first argument is the program, the rest its
    /// arguments; `AWS_PROFILE` and (when a region applies) `AWS_REGION`
    /// are set; the credential variables are removed unless the
    /// environment is to be preserved.
    pub fn plan(profile: &Profile, profile_name: &str, args: &Vec<String>, preserve_env: bool) -> (r: ExecPlan)
        requires
            args@.len() > 0,
        ensures
            r.program@ == args@[0]@,
            views(r.args@) == views(args@).skip(1),
            env_views(r.env_vars@) == exec_env(profile@, profile_name@),
            views(r.remove_env_vars@) == if preserve_env { Seq::empty() } else { credential_vars() },
    {
        let program = args[0].clone();
        let mut rest: Vec<String> = Vec::new();
        let n = args.len();
        for i in 1..n
            invariant
                n == args@.len(),
                n >= 1,
                views(rest@) == views(args@).subrange(1, i as int),
        {
            let ghost before = views(rest@);
            rest.push(args[i].clone());
            assert(views(rest@) =~= before.push(args@[i as int]@));
            assert(views(rest@) =~= views(args@).subrange(1, i + 1));
        }
        assert(views(args@).subrange(1, n as int) =~= views(args@).skip(1));
        let mut env_vars: Vec<EnvVar> = Vec::new();
        env_vars.push(EnvVar { key: "AWS_PROFILE".to_string(), value: profile_name.to_string() });
        match profile.effective_region() {
            Some(region) => {
                env_vars.push(EnvVar { key: "AWS_REGION".to_string(), value: region });
            },
            None => {},
        }
        assert(env_views(env_vars@) =~= exec_env(profile@, profile_name@));
        let mut remove: Vec<String> = Vec::new();
        if !preserve_env {
            remove.push("AWS_ACCESS_KEY_ID".to_string());
            remove.push("AWS_SECRET_ACCESS_KEY".to_string());
            remove.push("AWS_SESSION_TOKEN".to_string());
        }
        assert(views(remove@) =~= if preserve_env { Seq::empty() } else { credential_vars() });
        ExecPlan { program, args: rest, env_vars, remove_env_vars: remove }
    }

    /// Executes a command with the environment of the profile: a command
    /// must be given and the profile must exist (by exact name); a
    /// sensitive profile, unless `yes`, is first confirmed through the
    /// handler (a refusal is the error of `after_confirmation`, and
    /// nothing runs); then the executor runs the program of `plan` and its
    /// outcome is returned.
    pub fn execute<E: CommandExecutor, H: InteractionHandler>(
        executor: &E,
        handler: &H,
        store: &Store,
        policy: &ProfileSafetyPolicy,
        profile_name: String,
        args: Vec<String>,
        yes: bool,
        preserve_env: bool,
    ) -> (r: Result<i32, AppError>)
        requires
            store@.wf(),
        ensures
            ({
                let ps = store_profiles(store@);
                let a = views(args@);
                if a.len() == 0 {
                    r matches Err(AppError::Unknown(s)) && s@ == "No command specified"@
                } else if !has_name(ps, profile_name@) {
                    r matches Err(AppError::ProfileNotFound(s)) && s@ == profile_name@
                } else {
                    let p = ps[name_pos(ps, profile_name@)];
                    if sensitive(policy@, profile_name@, profile_tags(p)) && !yes {
                        exists|answer: bool|
                            #[trigger] handler.may_answer(profile_name@, answer) && if answer {
                                ran_plan(*executor, p, profile_name@, a, preserve_env, r)
                            } else {
                                is_aborted(r)
                            }
                    } else {
                        ran_plan(*executor, p, profile_name@, a, preserve_env, r)
                    }
                }
            }),
    {
        let ghost a = views(args@);
        let profile = match Self::check(store, policy, profile_name.as_str(), &args, yes) {
            Err(e) => { return Err(e); },
            Ok(ExecCheck::Proceed(p)) => p,
            Ok(ExecCheck::Confirm(p)) => {
                let confirmed = handler.confirm_sensitive_action(profile_name.as_str());
                assert(handler.may_answer(profile_name@, confirmed));
                match Self::after_confirmation(confirmed) {
                    Err(e) => { return Err(e); },
                    Ok(()) => p,
                }
            },
        };
        let plan = Self::plan(&profile, profile_name.as_str(), &args, preserve_env);
        assert(views(plan.args@) == a.skip(1));
        executor.run(
            plan.program.as_str(),
            plan.args.as_slice(),
            plan.env_vars.as_slice(),
            plan.remove_env_vars.as_slice(),
        )
    }
}

} // verus!