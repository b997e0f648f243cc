use std::collections::HashMap;
use std::sync::{Arc, Mutex};

use hirofa_utils::js_utils::adapters::JsRealmAdapter;
use hirofa_utils::js_utils::facades::values::JsValueFacade;
use hirofa_utils::js_utils::facades::JsRuntimeFacade;
use hirofa_utils::js_utils::modules::ScriptModuleLoader;
use hirofa_utils::js_utils::{JsError, Script};
use quickjs_runtime::builder::QuickJsRuntimeBuilder;
use quickjs_runtime::esvalue::{EsValueConvertible, EsValueFacade, ES_UNDEFINED};
use quickjs_runtime::facades::QuickJsRuntimeFacade;
use quickjs_runtime::quickjsrealmadapter::QuickJsRealmAdapter;
use realm_host::context::ContextManager;
use realm_host::error::{EngineError, ScriptError};
use realm_host::logger::{get_logger_msg, LogArg};
use realm_host::module_loader::ModuleLoader;
use realm_host::resolve::{rejection_error, Action, EngineValue, Field, ObjectInfo, Resolver};

struct Loader {
    inner: ModuleLoader,
}

impl ScriptModuleLoader<QuickJsRealmAdapter> for Loader {
    fn normalize_path(&self, _ctx: &QuickJsRealmAdapter, ref_path: &str, path: &str) -> Option<String> {
        self.inner.normalize_path(ref_path, path)
    }

    fn load_module(&self, _ctx: &QuickJsRealmAdapter, absolute_path: &str) -> String {
        self.inner.module_text(absolute_path)
    }
}

fn make_manager(logs: Arc<Mutex<Vec<String>>>, capacity: usize) -> (Arc<QuickJsRuntimeFacade>, Mutex<ContextManager>) {
    let builder = QuickJsRuntimeBuilder::new().script_module_loader(Box::new(Loader { inner: ModuleLoader::new() }));
    let manager = ContextManager::new(builder.build(), capacity);
    let rt = manager.runtime().clone();
    rt.set_function(vec!["xconsole"], "log", move |_: &QuickJsRealmAdapter, args: Vec<EsValueFacade>| {
        let first: Vec<LogArg> = args
            .iter()
            .take(1)
            .map(|a| if a.is_string() { LogArg::Text(a.get_str().to_owned()) } else { LogArg::Unprintable })
            .collect();
        if let Some(m) = get_logger_msg(&first) {
            logs.lock().unwrap().push(m);
        }
        Ok(ES_UNDEFINED.to_es_value_facade())
    })
    .unwrap();
    (rt, Mutex::new(manager))
}

fn script_error(e: &JsError) -> ScriptError {
    ScriptError::new(e.get_name().to_owned(), e.get_message().to_owned(), e.get_stack().to_owned())
}

fn field(props: &HashMap<String, JsValueFacade>, name: &str) -> Field {
    match props.get(name) {
        None => Field::Absent,
        Some(v) if v.is_string() => Field::Text(v.get_str().to_owned()),
        Some(_) => Field::NonText,
    }
}

async fn shape(rt: &Arc<QuickJsRuntimeFacade>, val: JsValueFacade) -> (EngineValue, Option<JsValueFacade>) {
    match val {
        JsValueFacade::String { val } => (EngineValue::Text(val.to_string()), None),
        JsValueFacade::Undefined => (EngineValue::Undefined, None),
        JsValueFacade::Null => (EngineValue::Null, None),
        JsValueFacade::JsObject { cached_object } => {
            let rti = rt.js_get_runtime_facade_inner().upgrade().unwrap();
            let props = cached_object.js_get_object(&*rti).await.unwrap();
            let rendering = cached_object.to_json_string(&*rti).await.unwrap();
            let info = ObjectInfo {
                title: field(&props, "title"),
                message: field(&props, "message"),
                stack: field(&props, "stack"),
                rendering,
            };
            (EngineValue::Object(info), None)
        }
        p @ JsValueFacade::JsPromise { .. } => (EngineValue::Deferred, Some(p)),
        JsValueFacade::JsError { val } => (EngineValue::Failure(script_error(&val)), None),
        other => (EngineValue::Primitive(other.stringify()), None),
    }
}

async fn resolve(rt: Arc<QuickJsRuntimeFacade>, val: JsValueFacade) -> Result<String, EngineError> {
    let mut resolver = Resolver::new();
    let mut current = val;
    loop {
        let (value, pending) = shape(&rt, current).await;
        match resolver.step(value, "return value".to_string()) {
            Action::Finish(outcome) => return outcome,
            Action::AwaitDeferred => {
                let promise = match pending {
                    Some(JsValueFacade::JsPromise { cached_promise }) => cached_promise,
                    _ => unreachable!(),
                };
                let rti = rt.js_get_runtime_facade_inner().upgrade().unwrap();
                match promise.js_get_promise_result(&*rti).await.unwrap() {
                    Ok(next) => current = next,
                    Err(rejected) => return Err(rejection_error(shape(&rt, rejected).await.0)),
                }
            }
        }
    }
}

fn run_script(
    rt: &Arc<QuickJsRuntimeFacade>,
    contexts: &Mutex<ContextManager>,
    id: &str,
    source: &'static str,
) -> Result<String, EngineError> {
    let id = id.to_string();
    contexts.lock().unwrap().begin_dispatch(&id)?;
    let evaluated = rt.js_loop_realm_sync(Some(&id), move |q_js_rt, q_ctx| {
        let res = q_ctx.eval(Script::new("test.js", source));
        q_js_rt.run_pending_jobs_if_any();
        match res {
            Ok(js) => q_ctx.to_js_value_facade(&js),
            Err(e) => Err(e),
        }
    });
    let outcome = match evaluated {
        Ok(v) => tokio::runtime::Runtime::new().unwrap().block_on(resolve(rt.clone(), v)),
        Err(e) => Err(EngineError::ScriptEvaluationError(script_error(&e))),
    };
    contexts.lock().unwrap().end_dispatch(&id);
    outcome
}

const MAIN: &str = "async function main() {
    const { abc } = await import('abc');
    await abc('id-42');
    return 'test';
}
main();
";

#[test]
fn chained_modules_log_in_order_and_resolve() {
    let logs = Arc::new(Mutex::new(Vec::new()));
    let (rt, contexts) = make_manager(logs.clone(), 8);
    contexts.lock().unwrap().create_context("id-42".to_string()).unwrap();
    assert_eq!(run_script(&rt, &contexts, "id-42", MAIN), Ok("test".to_string()));
    assert_eq!(
        *logs.lock().unwrap(),
        vec!["id-42 running module xyz...".to_string(), "id-42 running module abc...".to_string()]
    );
    assert!(contexts.lock().unwrap().drop_context(&"id-42".to_string()));
}

#[test]
fn engine_contexts_follow_the_registry() {
    let (_rt, contexts) = make_manager(Arc::new(Mutex::new(Vec::new())), 8);
    let mut m = contexts.lock().unwrap();
    assert_eq!(m.create_context("__main__".to_string()), Err(EngineError::ContextAlreadyExists));
    assert!(!m.drop_context(&"__main__".to_string()));
    assert_eq!(m.create_context("a".to_string()), Ok(()));
    assert_eq!(m.create_context("a".to_string()), Err(EngineError::ContextAlreadyExists));
    assert_eq!(m.begin_dispatch(&"a".to_string()), Ok(()));
    assert!(!m.drop_context(&"a".to_string()));
    assert_eq!(m.create_context("a".to_string()), Err(EngineError::ContextAlreadyExists));
    assert!(m.end_dispatch(&"a".to_string()));
    assert_eq!(m.create_context("a".to_string()), Ok(()));
    assert!(m.drop_context(&"a".to_string()));
    assert_eq!(m.begin_dispatch(&"a".to_string()), Err(EngineError::ContextNotFound));
    assert_eq!(m.begin_dispatch(&"never".to_string()), Err(EngineError::ContextNotFound));
    assert!(!m.drop_context(&"a".to_string()));
    assert_eq!(m.create_context("a".to_string()), Ok(()));
    assert!(m.drop_context(&"a".to_string()));
}

#[test]
fn rejected_script_gives_structured_error() {
    let (rt, contexts) = make_manager(Arc::new(Mutex::new(Vec::new())), 8);
    contexts.lock().unwrap().create_context("r".to_string()).unwrap();
    let src = "async function main() { throw { title: 'T', message: 'M', stack: 'S' }; }\nmain();\n";
    assert_eq!(
        run_script(&rt, &contexts, "r", src),
        Err(EngineError::ScriptEvaluationError(ScriptError::new("T".to_string(), "M".to_string(), "S".to_string())))
    );
    let missing = "async function main() { const { q } = await import('nope'); return q; }\nmain();\n";
    assert!(matches!(run_script(&rt, &contexts, "r", missing), Err(EngineError::ScriptEvaluationError(_))));
    assert!(contexts.lock().unwrap().drop_context(&"r".to_string()));
}

#[test]
fn many_cycles_each_end_ok() {
    let (rt, contexts) = make_manager(Arc::new(Mutex::new(Vec::new())), 64);
    for i in 0..100 {
        let id = format!("c-{}", i);
        contexts.lock().unwrap().create_context(id.clone()).unwrap();
        assert_eq!(run_script(&rt, &contexts, &id, MAIN), Ok("test".to_string()));
        assert!(contexts.lock().unwrap().drop_context(&id));
    }
    assert_eq!(contexts.lock().unwrap().create_context("c-0".to_string()), Ok(()));
}


#[test]
fn realm_made_before_the_manager_is_taken() {
    let builder = QuickJsRuntimeBuilder::new().runtime_init_hook(|rt: &QuickJsRuntimeFacade| rt.create_context("x"));
    let mut m = ContextManager::new(builder.build(), 8);
    assert_eq!(m.create_context("x".to_string()), Err(EngineError::ContextAlreadyExists));
    assert_eq!(m.begin_dispatch(&"x".to_string()), Err(EngineError::ContextNotFound));
    assert_eq!(m.create_context("y".to_string()), Ok(()));
    assert!(m.drop_context(&"y".to_string()));
}
