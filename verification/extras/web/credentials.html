<!doctype html>
<html lang="en" data-bs-theme="light">
<head>
<meta charset="utf-8"><meta name="viewport" content="width=device-width, initial-scale=1">
<title>CalStack — Credentials</title>
<link rel="stylesheet" href="/assets/css/bootstrap.min.css">
<link rel="stylesheet" href="/assets/css/bootstrap-icons.css">
<link rel="stylesheet" href="/assets/css/app.css">
<link rel="icon" type="image/png" sizes="16x16" href="/assets/img/favicon-16x16.png">
<link rel="icon" type="image/png" sizes="32x32" href="/assets/img/favicon-32x32.png">
<link rel="apple-touch-icon" href="/assets/img/apple-touch-icon.png">
<script src="/assets/js/theme.js"></script>
</head>
<body class="bg-body-tertiary">
<!-- header -->
<!-- admin menu -->
<div class="container p-3">
  <div id="secret-banner" class="alert alert-warning d-none" role="alert">
    <div class="fw-bold mb-1">Copy it now — it will not be shown again.</div>
    <code id="secret-value"></code>
  </div>

  <h1 class="h4 mb-3">API tokens</h1>
  <p class="text-body-secondary small">
    Bearer tokens for third-party apps (<code>Authorization: Bearer</code>).
    Scopes: empty or <code>full</code> = everything, <code>write</code> implies read,
    <code>read</code> = GET only.
  </p>
  <form id="token-form" class="card p-3 mb-4">
    <div class="row g-2 align-items-end">
      <div class="col"><label class="form-label" for="token-name">Name</label>
        <input class="form-control" id="token-name" required></div>
      <div class="col-auto form-check mb-2">
        <input class="form-check-input" type="checkbox" id="token-readonly">
        <label class="form-check-label" for="token-readonly">Read-only</label></div>
      <div class="col-auto"><label class="form-label" for="token-expires">Expires (optional)</label>
        <input class="form-control" id="token-expires" type="date"></div>
      <div class="col-auto"><button class="btn btn-primary" type="submit">Create token</button></div>
    </div>
  </form>
  <table class="table table-sm bg-body">
    <thead><tr><th>Name</th><th>Scopes</th><th>Created</th><th>Expires</th><th></th></tr></thead>
    <tbody id="token-rows"></tbody>
  </table>

  <h1 class="h4 mb-3 mt-4">App passwords</h1>
  <p class="text-body-secondary small">
    For CalDAV clients that only speak Basic auth. Username is your normal account
    username; the password is generated here.
  </p>
  <form id="app-password-form" class="card p-3 mb-4">
    <div class="row g-2 align-items-end">
      <div class="col"><label class="form-label" for="ap-name">Name</label>
        <input class="form-control" id="ap-name" required></div>
      <div class="col-auto"><button class="btn btn-primary" type="submit">Create app password</button></div>
    </div>
  </form>
  <table class="table table-sm bg-body">
    <thead><tr><th>Name</th><th>Created</th><th>Last used</th><th>Expires</th><th></th></tr></thead>
    <tbody id="ap-rows"></tbody>
  </table>

  <h1 class="h4 mb-3 mt-4">Two-factor authentication</h1>
  <p id="totp-status" class="text-body-secondary small">Loading…</p>
  <div class="d-flex gap-2">
    <button id="totp-setup-btn" class="btn btn-outline-primary btn-sm" type="button" hidden>Set up 2FA</button>
    <button id="totp-disable-btn" class="btn btn-outline-danger btn-sm" type="button" hidden>Disable 2FA</button>
  </div>
  <div id="totp-setup-panel" class="card p-3 mt-2 d-none">
    <p class="small text-body-secondary">Add this secret to your authenticator app (it is what the
      QR code would encode), then enter a code from it to confirm.</p>
    <div class="mb-2"><label class="form-label" for="totp-secret">Secret</label>
      <input class="form-control font-monospace" id="totp-secret" readonly></div>
    <div class="mb-2"><label class="form-label" for="totp-url">otpauth URL</label>
      <input class="form-control font-monospace" id="totp-url" readonly></div>
    <div class="row g-2 align-items-end">
      <div class="col-auto"><label class="form-label" for="totp-code">Authenticator code</label>
        <input class="form-control" id="totp-code" inputmode="numeric" autocomplete="one-time-code"></div>
      <div class="col-auto"><button id="totp-verify-btn" class="btn btn-primary" type="button">Verify &amp; enable</button></div>
    </div>
  </div>
  <div id="totp-recovery-panel" class="alert alert-warning mt-2 d-none" role="alert">
    <div class="fw-bold mb-1">Save these recovery codes now — they are shown only once.</div>
    <textarea id="totp-recovery-codes" class="form-control font-monospace" rows="8" readonly></textarea>
  </div>

  <h1 class="h4 mb-3 mt-4">Passkeys</h1>
  <p id="pk-note" class="text-body-secondary small d-none"></p>
  <form id="passkey-form" class="row g-2 align-items-end mb-2">
    <div class="col"><label class="form-label" for="pk-name">Name</label>
      <input class="form-control" id="pk-name" required></div>
    <div class="col-auto"><button class="btn btn-primary" type="submit">Add passkey</button></div>
  </form>
  <table class="table table-sm bg-body">
    <thead><tr><th>Name</th><th>Created</th><th>Last used</th><th></th></tr></thead>
    <tbody id="pk-rows"></tbody>
  </table>
</div>
<script src="/assets/js/jquery.min.js"></script>
<script src="/assets/js/jquery-migrate.min.js"></script>
<script src="/assets/js/api.js"></script>
<script src="/assets/js/bootstrap.bundle.min.js"></script>
<script src="/assets/js/dialogs.js"></script>
<script src="/assets/js/credentials.js"></script>
<!-- footer -->
</body></html>
