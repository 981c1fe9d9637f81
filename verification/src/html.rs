//! The HTML pages of the admin area, built as plain strings. Reading and
//! sending them over HTTP is the caller's concern.

use vstd::prelude::*;

verus! {

/// One rendered flash message: a paragraph of the given class.
pub fn flash_message_line(class: &str, content: &str) -> (r: String)
    ensures
        r@ == "<p class='"@ + class@ + "'><i>"@ + content@ + "</i></p>"@,
{
    let mut s = String::from_str("<p class='");
    s.append(class);
    s.append("'><i>");
    s.append(content);
    s.append("</i></p>");
    proof {
        assert(s@ =~= "<p class='"@ + class@ + "'><i>"@ + content@ + "</i></p>"@);
    }
    s
}

/// The admin dashboard page, greeting `username`.
pub fn get_admin_html(username: String) -> (r: String)
    ensures
        r@ == r#"
    <html lang="en">
        <head>
            <meta http-equiv="content-type" content="text/html; charset=utf-8">
            <title>Admin dashboard</title>
        </head>
        <body>
            <p>Welcome "#@ + username@
            + r#"!</p>
            <br />
            <p>Available actions:</p>
            <ol>
                <li><a href="/admin/password">Change password</a></li>
                <li>
                    <form name="logoutForm" action="/admin/logout" method="post">
                        <input type="submit" value="Logout">
                    </form>
                </li>
            </ol>
        </body>
    </html>
    "#@,
{
    let mut s = String::from_str(
        r#"
    <html lang="en">
        <head>
            <meta http-equiv="content-type" content="text/html; charset=utf-8">
            <title>Admin dashboard</title>
        </head>
        <body>
            <p>Welcome "#,
    );
    s.append(username.as_str());
    s.append(
        r#"!</p>
            <br />
            <p>Available actions:</p>
            <ol>
                <li><a href="/admin/password">Change password</a></li>
                <li>
                    <form name="logoutForm" action="/admin/logout" method="post">
                        <input type="submit" value="Logout">
                    </form>
                </li>
            </ol>
        </body>
    </html>
    "#,
    );
    s
}

/// The change-password form, with the rendered flash messages above it.
pub fn get_change_password_html(message: String) -> (r: String)
    ensures
        r@ == r#"<!DOCTYPE html>
    <html lang="en">
        <head>
            <meta http-equiv="content-type" content="text/html; charset=utf-8">
            <title>Change Password</title>
            <style>
                .error {
                    color: red;
                    font-weight: bold;
                }
                .info {
                    color: green;
                    font-weight: bold;
                }
            </style>
        </head>
        <body>
            "#@ + message@
            + r#"
            <form action="/admin/password" method="post">
                <label>Current password
                    <input
                        type="password"
                        placeholder="Enter current password"
                        name="current_password"
                    >
                </label>
                <br>
                <label>New password
                    <input
                    type="password"
                    placeholder="Enter new password"
                    name="new_password"
                    >
                </label>
                <br>
                <label>Confirm new password
                    <input
                        type="password"
                        placeholder="Type the new password again"
                        name="new_password_check"
                    >
                </label>
                <br>
                <button type="submit">Change password</button>
            </form>
            <p><a href="/admin/dashboard">&lt;- Back</a></p>
        </body>
    </html>"#@,
{
    let mut s = String::from_str(
        r#"<!DOCTYPE html>
    <html lang="en">
        <head>
            <meta http-equiv="content-type" content="text/html; charset=utf-8">
            <title>Change Password</title>
            <style>
                .error {
                    color: red;
                    font-weight: bold;
                }
                .info {
                    color: green;
                    font-weight: bold;
                }
            </style>
        </head>
        <body>
            "#,
    );
    s.append(message.as_str());
    s.append(
        r#"
            <form action="/admin/password" method="post">
                <label>Current password
                    <input
                        type="password"
                        placeholder="Enter current password"
                        name="current_password"
                    >
                </label>
                <br>
                <label>New password
                    <input
                    type="password"
                    placeholder="Enter new password"
                    name="new_password"
                    >
                </label>
                <br>
                <label>Confirm new password
                    <input
                        type="password"
                        placeholder="Type the new password again"
                        name="new_password_check"
                    >
                </label>
                <br>
                <button type="submit">Change password</button>
            </form>
            <p><a href="/admin/dashboard">&lt;- Back</a></p>
        </body>
    </html>"#,
    );
    s
}

/// The login form, with the rendered flash messages above it.
pub fn get_login_html(error_message: String) -> (r: String)
    ensures
        r@ == r#"
    <!DOCTYPE html>
    <html lang="en">
        <head>
            <meta http-equiv="content-type" content="text/html; charset=utf-8">
            <title>Login</title>
            <style>
                .error {
                    color: red;
                    font-weight: bold;
                }
                .info {
                    color: green;
                    font-weight: bold;
                }
            </style>
        </head>
        <body>
            "#@ + error_message@
            + r#"
            <form action="/login" method="post">
                <label>Username
                    <input
                        type="text"
                        placeholder="Enter Username"
                        name="username"
                    >
                </label>
                <label>Password
                    <input
                        type="password"
                        placeholder="Enter Password"
                        name="password"
                    >
                </label>
                <button type="submit">Login</button>
            </form>
        </body>
    </html>
    "#@,
{
    let mut s = String::from_str(
        r#"
    <!DOCTYPE html>
    <html lang="en">
        <head>
            <meta http-equiv="content-type" content="text/html; charset=utf-8">
            <title>Login</title>
            <style>
                .error {
                    color: red;
                    font-weight: bold;
                }
                .info {
                    color: green;
                    font-weight: bold;
                }
            </style>
        </head>
        <body>
            "#,
    );
    s.append(error_message.as_str());
    s.append(
        r#"
            <form action="/login" method="post">
                <label>Username
                    <input
                        type="text"
                        placeholder="Enter Username"
                        name="username"
                    >
                </label>
                <label>Password
                    <input
                        type="password"
                        placeholder="Enter Password"
                        name="password"
                    >
                </label>
                <button type="submit">Login</button>
            </form>
        </body>
    </html>
    "#,
    );
    s
}

/// Relies on uuid::Uuid::new_v4 and its hyphenated rendering: a fresh
/// random form token of 36 characters.
#[verifier::external_body]
fn fresh_form_token() -> (r: String)
    ensures
        r@.len() == 36,
{
    uuid::Uuid::new_v4().to_string()
}

/// The new-issue form, with the rendered flash messages above it and a
/// freshly generated idempotency key in a hidden field.
pub fn get_issue_page_html(message: String) -> (r: String)
    ensures
        exists|token: Seq<char>|
            #![trigger token.len()]
            token.len() == 36 && r@ == r#"
        <html>
            <head>
                <title>New newsletter issue</title>
                <style>
                    .error {
                        color: red;
                        font-weight: bold;
                    }
                    .info {
                        color: green;
                        font-weight: bold;
                    }
                </style>
            </head>
            <body>
                "#@ + message@
                + r#"
                <form action="/admin/newsletters" method="post">
                    <label>Title
                        <input
                            type="text"
                            placeholder="Title"
                            name="title"
                        >
                    </label>

                    <label>Text
                        <input
                            type="text"
                            placeholder="Text content"
                            name="text"
                        >
                    </label>

                    <label>HTML
                        <input
                            type="text"
                            placeholder="Html content"
                            name="html"
                        >
                    </label>

                    <input
                        hidden
                        type="text"
                        name="idempotency_key"
                        value=""#@ + token
                + r#""
                    >

                    <button type="submit">Send</button>
                </form>
            </body>
        </html>
    "#@,
{
    let token = fresh_form_token();
    let mut s = String::from_str(
        r#"
        <html>
            <head>
                <title>New newsletter issue</title>
                <style>
                    .error {
                        color: red;
                        font-weight: bold;
                    }
                    .info {
                        color: green;
                        font-weight: bold;
                    }
                </style>
            </head>
            <body>
                "#,
    );
    s.append(message.as_str());
    s.append(
        r#"
                <form action="/admin/newsletters" method="post">
                    <label>Title
                        <input
                            type="text"
                            placeholder="Title"
                            name="title"
                        >
                    </label>

                    <label>Text
                        <input
                            type="text"
                            placeholder="Text content"
                            name="text"
                        >
                    </label>

                    <label>HTML
                        <input
                            type="text"
                            placeholder="Html content"
                            name="html"
                        >
                    </label>

                    <input
                        hidden
                        type="text"
                        name="idempotency_key"
                        value=""#,
    );
    s.append(token.as_str());
    s.append(
        r#""
                    >

                    <button type="submit">Send</button>
                </form>
            </body>
        </html>
    "#,
    );
    proof {
        assert(token@.len() == 36 && s@ =~= r#"
        <html>
            <head>
                <title>New newsletter issue</title>
                <style>
                    .error {
                        color: red;
                        font-weight: bold;
                    }
                    .info {
                        color: green;
                        font-weight: bold;
                    }
                </style>
            </head>
            <body>
                "#@ + message@
            + r#"
                <form action="/admin/newsletters" method="post">
                    <label>Title
                        <input
                            type="text"
                            placeholder="Title"
                            name="title"
                        >
                    </label>

                    <label>Text
                        <input
                            type="text"
                            placeholder="Text content"
                            name="text"
                        >
                    </label>

                    <label>HTML
                        <input
                            type="text"
                            placeholder="Html content"
                            name="html"
                        >
                    </label>

                    <input
                        hidden
                        type="text"
                        name="idempotency_key"
                        value=""#@ + token@
            + r#""
                    >

                    <button type="submit">Send</button>
                </form>
            </body>
        </html>
    "#@);
    }
    s
}

} // verus!
