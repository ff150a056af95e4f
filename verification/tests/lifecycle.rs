//! A cache, a service with both attributes on its functions, and the calls of a record's life.

use pecs_macro::{cache_evict, cacheable};
use proc_macro2::{TokenStream, TokenTree};
use std::collections::HashMap;
use std::future::Future;
use std::sync::{Arc, Mutex};
use std::task::{Context, Poll, Wake, Waker};

/// The id of a record as a cache key.
pub trait ToCacheIdOpt {
    fn to_cache_id_opt(&self) -> Option<String>;
}

impl ToCacheIdOpt for u64 {
    fn to_cache_id_opt(&self) -> Option<String> {
        Some(self.to_string())
    }
}

impl ToCacheIdOpt for Option<u64> {
    fn to_cache_id_opt(&self) -> Option<String> {
        self.map(|id| id.to_string())
    }
}

#[derive(Debug, PartialEq, Eq, Clone)]
pub enum AppError {
    NotFound(String),
    DatabaseError(String),
}

impl AppError {
    pub fn not_found(msg: &str) -> Self {
        Self::NotFound(msg.to_string())
    }
}

#[derive(Clone, Default)]
pub struct ReqCtx;

pub struct ServiceRequest<T> {
    pub payload: T,
    pub context: ReqCtx,
}

#[derive(Debug, Clone, PartialEq, Eq)]
pub struct UserBo {
    pub id: u64,
    pub name: String,
}

#[derive(Clone, Default)]
pub struct MockCache {
    store: Arc<Mutex<HashMap<String, UserBo>>>,
    pub db_call_count: Arc<Mutex<usize>>,
    pub evict_call_count: Arc<Mutex<usize>>,
    /// Whether the cache cannot be reached.
    pub down: Arc<Mutex<bool>>,
}

impl MockCache {
    fn reach(&self) -> Result<(), AppError> {
        if *self.down.lock().unwrap() {
            Err(AppError::DatabaseError("cache down".into()))
        } else {
            Ok(())
        }
    }

    pub async fn get_or_load_with_ctx<T, F, Fut>(
        &self,
        id: impl ToString,
        _ctx: &ReqCtx,
        loader: F,
    ) -> Result<Option<T>, AppError>
    where
        T: Clone + From<UserBo> + Into<UserBo>,
        F: FnOnce() -> Fut,
        Fut: Future<Output = Result<Option<T>, AppError>>,
    {
        self.reach()?;
        let key = id.to_string();
        if let Some(val) = self.store.lock().unwrap().get(&key) {
            return Ok(Some(T::from(val.clone())));
        }
        *self.db_call_count.lock().unwrap() += 1;
        let res = loader().await?;
        if let Some(ref val) = res {
            self.store.lock().unwrap().insert(key, val.clone().into());
        }
        Ok(res)
    }

    pub async fn evict_all_smart<T>(
        &self,
        id: Option<String>,
        _ctx: &ReqCtx,
    ) -> Result<(), AppError> {
        *self.evict_call_count.lock().unwrap() += 1;
        self.reach()?;
        if let Some(key) = id {
            self.store.lock().unwrap().remove(&key);
        }
        Ok(())
    }
}

pub struct UserBiz {
    pub cache: MockCache,
}

impl UserBiz {
    /// As `#[cacheable(UserBo, id = param.payload.id)]` makes it.
    pub async fn get(&self, param: &ServiceRequest<UserBo>) -> Result<UserBo, AppError> {
        let __id_opt = ToCacheIdOpt::to_cache_id_opt(&(param.payload.id));
        if let Some(__id) = __id_opt {
            let __cache_res = self
                .cache
                .get_or_load_with_ctx::<UserBo, _, _>(__id, &param.context, || async move {
                    let __inner_res = async move {
                        Ok(UserBo {
                            id: param.payload.id,
                            name: format!("User_{}", param.payload.id),
                        })
                    }
                    .await;
                    match __inner_res {
                        Ok(__val) => Ok(Some(__val)),
                        Err(AppError::NotFound(_)) => Ok(None),
                        Err(e) => Err(e),
                    }
                })
                .await?;
            return __cache_res.ok_or_else(|| AppError::not_found("记录不存在"));
        }
        async move {
            Ok(UserBo { id: param.payload.id, name: format!("User_{}", param.payload.id) })
        }
        .await
    }

    /// As `#[cacheable(UserBo, id = id)]` makes a read that finds nothing.
    pub async fn find_nothing(&self, id: Option<u64>, ctx: ReqCtx) -> Result<UserBo, AppError> {
        let __id_opt = ToCacheIdOpt::to_cache_id_opt(&(id));
        if let Some(__id) = __id_opt {
            let __cache_res = self
                .cache
                .get_or_load_with_ctx::<UserBo, _, _>(__id, &ctx, || async move {
                    let __inner_res = async move { Err(AppError::not_found("no such user")) }.await;
                    match __inner_res {
                        Ok(__val) => Ok(Some(__val)),
                        Err(AppError::NotFound(_)) => Ok(None),
                        Err(e) => Err(e),
                    }
                })
                .await?;
            return __cache_res.ok_or_else(|| AppError::not_found("记录不存在"));
        }
        async move { Err(AppError::not_found("no such user")) }.await
    }

    /// As `#[cacheable(UserBo, id = id)]` makes a read that fails.
    pub async fn find_fail(&self, id: u64, ctx: ReqCtx) -> Result<UserBo, AppError> {
        let __id_opt = ToCacheIdOpt::to_cache_id_opt(&(id));
        if let Some(__id) = __id_opt {
            let __cache_res = self
                .cache
                .get_or_load_with_ctx::<UserBo, _, _>(__id, &ctx, || async move {
                    let __inner_res =
                        async move { Err(AppError::DatabaseError("timeout".into())) }.await;
                    match __inner_res {
                        Ok(__val) => Ok(Some(__val)),
                        Err(AppError::NotFound(_)) => Ok(None),
                        Err(e) => Err(e),
                    }
                })
                .await?;
            return __cache_res.ok_or_else(|| AppError::not_found("记录不存在"));
        }
        async move { Err(AppError::DatabaseError("timeout".into())) }.await
    }

    /// As `#[cache_evict(UserBo, id = param.payload.id, all = true)]` makes it.
    pub async fn update(&self, param: &ServiceRequest<UserBo>) -> Result<UserBo, AppError> {
        let __res = async move { Ok(param.payload.clone()) }.await;
        if __res.is_ok() {
            let __id_opt = ToCacheIdOpt::to_cache_id_opt(&(param.payload.id));
            let _ = self.cache.evict_all_smart::<UserBo>(__id_opt, &param.context).await;
        }
        __res
    }

    /// As `#[cache_evict(UserBo, id = param.payload.id, all = true)]` makes a write that fails.
    pub async fn update_fail(&self, param: &ServiceRequest<UserBo>) -> Result<UserBo, AppError> {
        let __res = async move { Err(AppError::DatabaseError("数据库死锁".into())) }.await;
        if __res.is_ok() {
            let __id_opt = ToCacheIdOpt::to_cache_id_opt(&(param.payload.id));
            let _ = self.cache.evict_all_smart::<UserBo>(__id_opt, &param.context).await;
        }
        __res
    }
}

struct Idle;

impl Wake for Idle {
    fn wake(self: Arc<Self>) {}
}

fn block_on<F: Future>(future: F) -> F::Output {
    let waker = Waker::from(Arc::new(Idle));
    let mut context = Context::from_waker(&waker);
    let mut future = Box::pin(future);
    loop {
        if let Poll::Ready(value) = future.as_mut().poll(&mut context) {
            return value;
        }
    }
}

fn flat(stream: TokenStream) -> Vec<String> {
    let mut out = Vec::new();
    for tree in stream {
        match tree {
            TokenTree::Group(group) => {
                out.push(format!("{:?}<", group.delimiter()));
                out.extend(flat(group.stream()));
                out.push(format!("{:?}>", group.delimiter()));
            }
            other => out.push(other.to_string()),
        }
    }
    out
}

fn toks(text: &str) -> TokenStream {
    text.parse().unwrap()
}

/// The functions of the service above are what the attributes make of these.
#[test]
fn service_is_what_the_attributes_make() {
    let get = cacheable(
        toks("UserBo, id = param.payload.id"),
        toks(
            "pub async fn get(&self, param: &ServiceRequest<UserBo>) -> Result<UserBo, AppError> {
                Ok(UserBo {
                    id: param.payload.id,
                    name: format!(\"User_{}\", param.payload.id),
                })
            }",
        ),
    );
    let expected = toks(
        "pub async fn get(&self, param: &ServiceRequest<UserBo>) -> Result<UserBo, AppError> {
            let __id_opt =
                crate::common::cache::ToCacheIdOpt::to_cache_id_opt(&(param.payload.id));
            if let Some(__id) = __id_opt {
                let __cache_res = self
                    .cache
                    .get_or_load_with_ctx::<UserBo, _, _>(__id, &param.context, || async move {
                        let __inner_res = async move {
                            Ok(UserBo {
                                id: param.payload.id,
                                name: format!(\"User_{}\", param.payload.id),
                            })
                        }
                        .await;
                        match __inner_res {
                            Ok(__val) => Ok(Some(__val)),
                            Err(crate::common::error::AppError::NotFound(_)) => Ok(None),
                            Err(e) => Err(e),
                        }
                    })
                    .await?;
                return __cache_res
                    .ok_or_else(|| crate::common::error::AppError::not_found(\"记录不存在\"));
            }
            async move {
                Ok(UserBo {
                    id: param.payload.id,
                    name: format!(\"User_{}\", param.payload.id),
                })
            }
            .await
        }",
    );
    assert_eq!(flat(get.ok().unwrap()), flat(expected));

    let update_fail = cache_evict(
        toks("UserBo, id = param.payload.id, all = true"),
        toks(
            "pub async fn update_fail(&self, param: &ServiceRequest<UserBo>) -> Result<UserBo, AppError> {
                Err(AppError::DatabaseError(\"数据库死锁\".into()))
            }",
        ),
    );
    let expected = toks(
        "pub async fn update_fail(&self, param: &ServiceRequest<UserBo>) -> Result<UserBo, AppError> {
            let __res = async move { Err(AppError::DatabaseError(\"数据库死锁\".into())) }.await;
            if __res.is_ok() {
                let __id_opt =
                    crate::common::cache::ToCacheIdOpt::to_cache_id_opt(&(param.payload.id));
                let _ = self.cache.evict_all_smart::<UserBo>(__id_opt, &param.context).await;
            }
            __res
        }",
    );
    assert_eq!(flat(update_fail.ok().unwrap()), flat(expected));
}

/// And so are the others.
#[test]
fn service_is_what_the_attributes_make_of_the_rest() {
    let update = cache_evict(
        toks("UserBo, id = param.payload.id, all = true"),
        toks(
            "pub async fn update(&self, param: &ServiceRequest<UserBo>) -> Result<UserBo, AppError> {
                Ok(param.payload.clone())
            }",
        ),
    );
    let expected = toks(
        "pub async fn update(&self, param: &ServiceRequest<UserBo>) -> Result<UserBo, AppError> {
            let __res = async move { Ok(param.payload.clone()) }.await;
            if __res.is_ok() {
                let __id_opt =
                    crate::common::cache::ToCacheIdOpt::to_cache_id_opt(&(param.payload.id));
                let _ = self.cache.evict_all_smart::<UserBo>(__id_opt, &param.context).await;
            }
            __res
        }",
    );
    assert_eq!(flat(update.ok().unwrap()), flat(expected));

    let find_nothing = cacheable(
        toks("UserBo, id = id"),
        toks(
            "pub async fn find_nothing(&self, id: Option<u64>, ctx: ReqCtx) -> Result<UserBo, AppError> {
                Err(AppError::not_found(\"no such user\"))
            }",
        ),
    );
    let expected = toks(
        "pub async fn find_nothing(&self, id: Option<u64>, ctx: ReqCtx) -> Result<UserBo, AppError> {
            let __id_opt = crate::common::cache::ToCacheIdOpt::to_cache_id_opt(&(id));
            if let Some(__id) = __id_opt {
                let __cache_res = self
                    .cache
                    .get_or_load_with_ctx::<UserBo, _, _>(__id, &ctx, || async move {
                        let __inner_res = async move { Err(AppError::not_found(\"no such user\")) }.await;
                        match __inner_res {
                            Ok(__val) => Ok(Some(__val)),
                            Err(crate::common::error::AppError::NotFound(_)) => Ok(None),
                            Err(e) => Err(e),
                        }
                    })
                    .await?;
                return __cache_res
                    .ok_or_else(|| crate::common::error::AppError::not_found(\"记录不存在\"));
            }
            async move { Err(AppError::not_found(\"no such user\")) }.await
        }",
    );
    assert_eq!(flat(find_nothing.ok().unwrap()), flat(expected));

    let find_fail = cacheable(
        toks("UserBo, id = id"),
        toks(
            "pub async fn find_fail(&self, id: u64, ctx: ReqCtx) -> Result<UserBo, AppError> {
                Err(AppError::DatabaseError(\"timeout\".into()))
            }",
        ),
    );
    let expected = toks(
        "pub async fn find_fail(&self, id: u64, ctx: ReqCtx) -> Result<UserBo, AppError> {
            let __id_opt = crate::common::cache::ToCacheIdOpt::to_cache_id_opt(&(id));
            if let Some(__id) = __id_opt {
                let __cache_res = self
                    .cache
                    .get_or_load_with_ctx::<UserBo, _, _>(__id, &ctx, || async move {
                        let __inner_res = async move { Err(AppError::DatabaseError(\"timeout\".into())) }.await;
                        match __inner_res {
                            Ok(__val) => Ok(Some(__val)),
                            Err(crate::common::error::AppError::NotFound(_)) => Ok(None),
                            Err(e) => Err(e),
                        }
                    })
                    .await?;
                return __cache_res
                    .ok_or_else(|| crate::common::error::AppError::not_found(\"记录不存在\"));
            }
            async move { Err(AppError::DatabaseError(\"timeout\".into())) }.await
        }",
    );
    assert_eq!(flat(find_fail.ok().unwrap()), flat(expected));
}

#[test]
fn test_cacheable_and_evict_full_lifecycle() {
    let cache = MockCache::default();
    let biz = UserBiz { cache: cache.clone() };
    let req = ServiceRequest {
        payload: UserBo { id: 1001, name: "Alice".into() },
        context: ReqCtx,
    };

    // The first read finds nothing in the cache, loads the record and keeps it.
    let user = block_on(biz.get(&req)).unwrap();
    assert_eq!(user.name, "User_1001");
    assert_eq!(*cache.db_call_count.lock().unwrap(), 1);

    // The second one is answered from the cache.
    let user_cached = block_on(biz.get(&req)).unwrap();
    assert_eq!(user_cached.name, "User_1001");
    assert_eq!(*cache.db_call_count.lock().unwrap(), 1);

    // A write that fails leaves the cache alone.
    let fail_res = block_on(biz.update_fail(&req));
    assert!(fail_res.is_err());
    assert_eq!(*cache.evict_call_count.lock().unwrap(), 0);

    // A write that succeeds drops the record.
    let update_req = ServiceRequest {
        payload: UserBo { id: 1001, name: "Bob".into() },
        context: ReqCtx,
    };
    let updated = block_on(biz.update(&update_req)).unwrap();
    assert_eq!(updated.name, "Bob");
    assert_eq!(*cache.evict_call_count.lock().unwrap(), 1);

    // So the next read loads it again.
    let user_after_evict = block_on(biz.get(&req)).unwrap();
    assert_eq!(user_after_evict.name, "User_1001");
    assert_eq!(*cache.db_call_count.lock().unwrap(), 2);
}

#[test]
fn missing_record_and_missing_key() {
    let biz = UserBiz { cache: MockCache::default() };
    // Through the cache the error has the message of the generated code.
    assert_eq!(
        block_on(biz.find_nothing(Some(7), ReqCtx)),
        Err(AppError::NotFound("记录不存在".to_string())),
    );
    assert_eq!(*biz.cache.db_call_count.lock().unwrap(), 1);
    // Without a key the cache is not asked, and the error is the function's own.
    assert_eq!(
        block_on(biz.find_nothing(None, ReqCtx)),
        Err(AppError::NotFound("no such user".to_string())),
    );
    assert_eq!(*biz.cache.db_call_count.lock().unwrap(), 1);
}

fn request(id: u64) -> ServiceRequest<UserBo> {
    ServiceRequest { payload: UserBo { id, name: "Alice".into() }, context: ReqCtx }
}

#[test]
fn other_errors_pass_and_are_not_kept() {
    let biz = UserBiz { cache: MockCache::default() };
    for count in [1, 2] {
        assert_eq!(
            block_on(biz.find_fail(7, ReqCtx)),
            Err(AppError::DatabaseError("timeout".to_string())),
        );
        assert_eq!(*biz.cache.db_call_count.lock().unwrap(), count);
    }
}

#[test]
fn cache_that_cannot_be_reached() {
    let biz = UserBiz { cache: MockCache::default() };
    *biz.cache.down.lock().unwrap() = true;
    // A read gives the error of the cache, and loads nothing.
    assert_eq!(
        block_on(biz.get(&request(1))),
        Err(AppError::DatabaseError("cache down".to_string())),
    );
    assert_eq!(*biz.cache.db_call_count.lock().unwrap(), 0);
    // A write gives what it gave all the same.
    assert_eq!(block_on(biz.update(&request(1))).unwrap().name, "Alice");
    assert_eq!(*biz.cache.evict_call_count.lock().unwrap(), 1);
}

#[test]
fn write_keeps_other_records() {
    let biz = UserBiz { cache: MockCache::default() };
    assert!(block_on(biz.get(&request(1))).is_ok());
    assert!(block_on(biz.update(&request(2))).is_ok());
    assert_eq!(block_on(biz.get(&request(1))).unwrap().name, "User_1");
    assert_eq!(*biz.cache.db_call_count.lock().unwrap(), 1);
}
