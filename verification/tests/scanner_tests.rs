use volt::app::HttpMethod;
use volt::keyed::KeyedList;
use volt::scanner::frameworks::{
    extract_actix, extract_aspnet, extract_axum, extract_django, extract_flask, extract_gin, extract_routes,
    extract_spring,
};
use volt::scanner::{custom_routes_to_persist, is_too_broad_dir, RouteInfo};

#[test]
fn gin_detects_routes() {
    let path = "main.go";
    let content = r#"
import "github.com/gin-gonic/gin"
func main() {
    r := gin.Default()
    r.GET("/users", listUsers)
    r.POST("/users", createUser)
    v1 := r.Group("/v1")
    v1.DELETE("/users/:id", deleteUser)
}
"#;
    let routes = extract_gin(path, content);
    assert!(routes.iter().any(|r| r.path == "/users" && r.method == HttpMethod::Get));
    assert!(routes.iter().any(|r| r.path == "/users" && r.method == HttpMethod::Post));
    assert!(routes.iter().any(|r| r.path == "/users/:id" && r.method == HttpMethod::Delete));
}

#[test]
fn spring_detects_shorthand_mappings() {
    let path = "UserController.java";
    let content = r#"
@RestController
public class UserController {
    @GetMapping("/users")
    public List<User> list() { return null; }

    @PostMapping("/users")
    public User create(@RequestBody User u) { return null; }

    @DeleteMapping("/users/{id}")
    public void delete(@PathVariable Long id) {}
}
"#;
    let routes = extract_spring(path, content).unwrap();
    assert!(routes.iter().any(|r| r.path == "/users" && r.method == HttpMethod::Get));
    assert!(routes.iter().any(|r| r.path == "/users" && r.method == HttpMethod::Post));
    assert!(routes.iter().any(|r| r.path == "/users/{id}" && r.method == HttpMethod::Delete));
}

#[test]
fn django_detects_urlpatterns() {
    let path = "urls.py";
    let content = r#"
from django.urls import path, re_path
urlpatterns = [
    path("users/", views.UserList.as_view()),
    path("users/<int:pk>/", views.UserDetail.as_view()),
    re_path(r"^articles/(?P<slug>[a-z]+)/$", views.ArticleDetail.as_view()),
]
"#;
    let routes = extract_django(path, content);
    assert!(routes.iter().any(|r| r.path == "/users"));
    assert!(routes.iter().any(|r| r.path == "/users/:pk"));
    assert!(routes.iter().any(|r| r.path == "/articles/:slug"));
}

#[test]
fn flask_detects_routes() {
    let path = "app.py";
    let content = r#"
from flask import Flask
app = Flask(__name__)

@app.route("/")
def index(): pass

@app.route("/users", methods=["GET", "POST"])
def users(): pass

@app.route("/users/<id>", methods=["DELETE"])
def delete_user(id): pass
"#;
    let routes = extract_flask(path, content);
    assert!(routes.iter().any(|r| r.path == "/" && r.method == HttpMethod::Get));
    assert!(routes.iter().any(|r| r.path == "/users" && r.method == HttpMethod::Get));
    assert!(routes.iter().any(|r| r.path == "/users" && r.method == HttpMethod::Post));
    assert!(routes.iter().any(|r| r.path == "/users/<id>" && r.method == HttpMethod::Delete));
}

#[test]
fn aspnet_minimal_api() {
    let path = "Program.cs";
    let content = r#"
var app = builder.Build();
app.MapGet("/users", () => Results.Ok());
app.MapPost("/users", (User u) => Results.Created());
app.MapDelete("/users/{id}", (int id) => Results.NoContent());
"#;
    let routes = extract_aspnet(path, content).unwrap();
    assert!(routes.iter().any(|r| r.path == "/users" && r.method == HttpMethod::Get));
    assert!(routes.iter().any(|r| r.path == "/users" && r.method == HttpMethod::Post));
    assert!(routes.iter().any(|r| r.path == "/users/:id" && r.method == HttpMethod::Delete));
}

const AXUM_FIXTURE: &str = r#"use axum::{routing::{get, post}, Router};

async fn login() {}
async fn users() {}

fn app() -> Router {
    Router::new()
        .route("/v1/login", post(login))
        .route("/users", get(users))
}
"#;

const ACTIX_FIXTURE: &str = r#"use actix_web::{get, web, App, HttpResponse};

#[get("/health")]
async fn health() -> HttpResponse {
    HttpResponse::Ok().finish()
}

fn app() -> App<()> {
    App::new().route("/metrics", web::get().to(health))
}
"#;

#[test]
fn axum_and_actix_fixtures() {
    let axum = extract_axum("axum.rs", AXUM_FIXTURE);
    assert!(axum.iter().any(|r| r.framework == "axum" && r.path == "/v1/login" && r.method == HttpMethod::Post));
    assert!(axum.iter().any(|r| r.framework == "axum" && r.path == "/users" && r.method == HttpMethod::Get));
    let actix = extract_actix("actix.rs", ACTIX_FIXTURE);
    assert!(actix.iter().any(|r| r.framework == "actix-web" && r.path == "/health" && r.method == HttpMethod::Get));
    let all = extract_routes("axum.rs", AXUM_FIXTURE).unwrap();
    assert!(all.iter().any(|r| r.path == "/v1/login" && r.line == 8));
}

fn custom(path: &str) -> RouteInfo {
    RouteInfo {
        method: HttpMethod::Get,
        path: path.to_string(),
        framework: "custom".to_string(),
        source: "custom".to_string(),
        line: 0,
    }
}

#[test]
fn only_custom_routes_are_persisted() {
    let mut scanned = custom("/scanned");
    scanned.framework = "axum".to_string();
    let routes = vec![custom("/a"), scanned, custom("/b")];
    let mut base_urls = KeyedList::new();
    base_urls.insert(routes[0].id(), "http://localhost:8080".to_string());
    let saved = custom_routes_to_persist(&routes, &base_urls);
    assert_eq!(saved.len(), 2);
    assert_eq!(saved[0].route.path, "/a");
    assert_eq!(saved[0].base_url, "http://localhost:8080");
    assert_eq!(saved[1].route.path, "/b");
    assert_eq!(saved[1].base_url, "");
}

#[test]
fn route_ids() {
    assert_eq!(custom("/a").id(), "custom:GET:/a:custom");
}

#[test]
fn broad_directories() {
    assert!(is_too_broad_dir(true, false, "/Users/me"));
    assert!(is_too_broad_dir(false, true, "/"));
    assert!(is_too_broad_dir(false, false, "/home/alice"));
    assert!(!is_too_broad_dir(false, false, "/home/alice/project"));
    assert!(!is_too_broad_dir(false, false, "/srv/app"));
}
