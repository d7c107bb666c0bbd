<!doctype html>
<html lang="en" data-bs-theme="light">
<head>
<meta charset="utf-8"><meta name="viewport" content="width=device-width, initial-scale=1">
<title>CalStack — Sign in</title>
<link rel="stylesheet" href="/assets/css/bootstrap.min.css">
<link rel="stylesheet" href="/assets/css/app.css">
<link rel="icon" type="image/png" sizes="16x16" href="/assets/img/favicon-16x16.png">
<link rel="icon" type="image/png" sizes="32x32" href="/assets/img/favicon-32x32.png">
<link rel="apple-touch-icon" href="/assets/img/apple-touch-icon.png">
<script src="/assets/js/theme.js"></script>
</head>
<body class="d-flex flex-column bg-body-tertiary" style="min-height:100vh">
<div class="flex-grow-1 d-flex align-items-center">
<div class="container" style="max-width:420px">
  <form id="login-form" class="card p-4 mt-5">
    <h1 class="h4 mb-3">CalStack</h1>
    <div class="mb-3"><label class="form-label" for="user">Username or email</label>
      <input class="form-control" id="user" name="user" autocomplete="username" required></div>
    <div class="mb-3"><label class="form-label" for="pass">Password</label>
      <input class="form-control" id="pass" type="password" autocomplete="current-password" required></div>
    <div class="mb-3" id="totp-row" hidden><label class="form-label" for="totp">2FA code</label>
      <input class="form-control" id="totp" inputmode="numeric" autocomplete="one-time-code"></div>
    <button class="btn btn-primary" type="submit">Sign in</button>
    <div id="error" class="alert alert-danger mt-3 mb-0 d-none" role="alert"></div>
  </form>
</div>
</div>
<script src="/assets/js/jquery.min.js"></script>
<script src="/assets/js/jquery-migrate.min.js"></script>
<script>
$(function () {
  $('#login-form').on('submit', function (ev) {
    ev.preventDefault();
    $('#error').addClass('d-none');
    $.ajax({
      method: 'POST',
      url: '/api/auth/login',
      contentType: 'application/json',
      data: JSON.stringify({
        username_or_email: $('#user').val(),
        password: $('#pass').val(),
        totp_code: $('#totp').val() || null,
      }),
    })
      .done(function (resp) {
        sessionStorage.setItem('csrf', resp.csrf_token);
        window.location.href = '/';
      })
      .fail(function (xhr) {
        if (xhr.status === 401 && $('#totp-row').prop('hidden')) {
          $('#totp-row').prop('hidden', false);
          $('#error').text('Enter your two-factor code.').removeClass('d-none');
        } else {
          $('#error').text(xhr.responseJSON && xhr.responseJSON.error || 'Sign in failed').removeClass('d-none');
        }
      });
  });
});
</script>
<!-- footer -->
</body></html>
